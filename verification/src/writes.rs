//! How writes to the library are told, and what of them can be taken back.

use crate::icons::{short_rev, short_revision};
use crate::measure::{to_uppercase, upper};
use crate::model::{Intent, Take, Write};
use crate::text::{
    cat2, cat3, cat4, chars_of, decimal, has_char, list_holds, numeral, said, same_text, slice_of,
    texts,
};
use vstd::prelude::*;

verus! {

/// What a write came to.
#[derive(Debug)]
pub struct Written {
    /// What the write says of itself: a key, a name or a sentence.
    pub text: String,
    /// How many things it touched.
    pub count: usize,
    /// What takes it back.
    pub intent: Option<Intent>,
}

/// What is told of a write.
pub open spec fn told_of(write: Write, done: Written) -> Seq<char> {
    match write {
        Write::RenameRepository { .. } => "Source renamed to "@ + done.text@,
        Write::RenameSkill { from, to } => "renamed "@ + from@ + " to "@ + to@,
        Write::DeletePreset { name } => "deleted preset "@ + name@,
        Write::CreateTag { name } => "created "@ + name@ + " — press a to add skills"@,
        Write::DescribeTag { name, .. } => "updated description of "@ + name@,
        Write::RenameTag { .. } => "renamed tag on "@ + numeral(done.count as int)
            + " skill(s)"@,
        Write::DeleteTag { .. } => "removed tag from "@ + numeral(done.count as int)
            + " skill(s)"@,
        Write::EditTag { name, .. } => "Updated tag "@ + name@,
        Write::AddToPresets { names, .. } => "Added missing skills to "@ + numeral(
            names@.len() as int,
        ) + " presets"@,
        Write::Adopt { agent, .. } => "adopted "@ + done.text@ + " from "@ + agent@,
        Write::RemoveSkill { key } => "removed "@ + key@,
        Write::DiscardSkill { key } => "discarded "@ + key@,
        Write::SetTagsEnabled(enabled) => if enabled {
            "Tags enabled"@
        } else {
            "Tags disabled"@
        },
        Write::ApplyUpdate { prepared, take } => if take == Take::Local {
            prepared.skill@ + ": kept local; update skipped"@
        } else {
            prepared.skill@ + " updated to "@ + short_revision(prepared.to_revision@)
        },
        Write::SetSource { .. } => done.text@,
        Write::CreatePreset { .. } => done.text@,
        Write::DescribePreset { .. } => done.text@,
        Write::RenamePreset { .. } => done.text@,
        Write::Deploy { .. } => done.text@,
        Write::EditNote { .. } => done.text@,
        Write::TakeBack(_) => done.text@,
    }
}

/// The write is never a step of the history: what it changed is gone for good, or is a step
/// already.
pub open spec fn leaves_no_step(write: Write) -> bool {
    match write {
        Write::RenameRepository { .. } => true,
        Write::DeletePreset { .. } => true,
        Write::Adopt { .. } => true,
        Write::RemoveSkill { .. } => true,
        Write::DiscardSkill { .. } => true,
        Write::SetTagsEnabled(_) => true,
        Write::ApplyUpdate { .. } => true,
        Write::TakeBack(_) => true,
        _ => false,
    }
}

/// What is recorded of a write.
pub open spec fn recorded_of(write: Write, done: Written) -> Option<Intent> {
    match write {
        Write::RenameSkill { from, to } => Some(Intent::Rename { from, to }),
        _ => if leaves_no_step(write) {
            None
        } else {
            done.intent
        },
    }
}

fn tell(write: &Write, done: &Written) -> (r: String)
    ensures
        r@ == told_of(*write, *done),
{
    let text = done.text.as_str();
    match write {
        Write::RenameRepository { .. } => cat2("Source renamed to ", text),
        Write::RenameSkill { from, to } => cat4("renamed ", from.as_str(), " to ", to.as_str()),
        Write::DeletePreset { name } => cat2("deleted preset ", name.as_str()),
        Write::CreateTag { name } => cat3(
            "created ",
            name.as_str(),
            " — press a to add skills",
        ),
        Write::DescribeTag { name, .. } => cat2("updated description of ", name.as_str()),
        Write::RenameTag { .. } => cat3(
            "renamed tag on ",
            decimal(done.count).as_str(),
            " skill(s)",
        ),
        Write::DeleteTag { .. } => cat3(
            "removed tag from ",
            decimal(done.count).as_str(),
            " skill(s)",
        ),
        Write::EditTag { name, .. } => cat2("Updated tag ", name.as_str()),
        Write::AddToPresets { names, .. } => cat3(
            "Added missing skills to ",
            decimal(names.len()).as_str(),
            " presets",
        ),
        Write::Adopt { agent, .. } => cat4("adopted ", text, " from ", agent.as_str()),
        Write::RemoveSkill { key } => cat2("removed ", key.as_str()),
        Write::DiscardSkill { key } => cat2("discarded ", key.as_str()),
        Write::SetTagsEnabled(enabled) => if *enabled {
            "Tags enabled".to_owned()
        } else {
            "Tags disabled".to_owned()
        },
        Write::ApplyUpdate { prepared, take } => if *take == Take::Local {
            cat2(prepared.skill.as_str(), ": kept local; update skipped")
        } else {
            cat3(
                prepared.skill.as_str(),
                " updated to ",
                short_rev(prepared.to_revision.as_str()).as_str(),
            )
        },
        Write::SetSource { .. }
        | Write::CreatePreset { .. }
        | Write::DescribePreset { .. }
        | Write::RenamePreset { .. }
        | Write::Deploy { .. }
        | Write::EditNote { .. }
        | Write::TakeBack(_) => text.to_owned(),
    }
}

/// How a write that went through is told, and what is recorded of it.
pub fn written(write: &Write, done: Written) -> (r: (String, Option<Intent>))
    ensures
        r.0@ == told_of(*write, done),
        r.1 == recorded_of(*write, done),
{
    let text = tell(write, &done);
    let intent = match write {
        Write::RenameSkill { from, to } => Some(
            Intent::Rename { from: from.clone(), to: to.clone() },
        ),
        Write::RenameRepository { .. }
        | Write::DeletePreset { .. }
        | Write::Adopt { .. }
        | Write::RemoveSkill { .. }
        | Write::DiscardSkill { .. }
        | Write::SetTagsEnabled(_)
        | Write::ApplyUpdate { .. }
        | Write::TakeBack(_) => None,
        _ => done.intent,
    };
    (text, intent)
}

/// A tag can be created under this name.
pub open spec fn tag_problem(name: Seq<char>, known: Seq<Seq<char>>) -> Option<Seq<char>> {
    if name == "(untagged)"@ || name.contains(',') {
        Some("invalid tag name"@)
    } else if known.contains(name) {
        Some("tag "@ + name + " already exists"@)
    } else {
        None
    }
}

/// Why a tag cannot be created under this name, where it cannot.
pub fn check_new_tag(name: &str, known: &Vec<String>) -> (r: Option<String>)
    ensures
        said(r) == tag_problem(name@, texts(known@)),
{
    if same_text(name, "(untagged)") || has_char(name, ',') {
        Some("invalid tag name".to_owned())
    } else if list_holds(known, name) {
        Some(cat3("tag ", name, " already exists"))
    } else {
        None
    }
}

/// A sentence, with its first letter a capital.
pub open spec fn capitalized(s: Seq<char>) -> Seq<char> {
    if s.len() == 0 {
        s
    } else {
        upper(s[0]) + s.skip(1)
    }
}

/// Sentences in a dialog start with a capital.
pub fn capitalize(text: &str) -> (r: String)
    ensures
        r@ == capitalized(text@),
{
    let chars = chars_of(text);
    if chars.len() == 0 {
        return String::new();
    }
    let rest = slice_of(&chars, 1, chars.len());
    cat2(to_uppercase(chars[0]).as_str(), rest.as_str())
}

// ---- laws --------------------------------------------------------------------

/// What is taken back is not recorded again, so that an undo cannot be undone by another.
pub proof fn lemma_taking_back_is_no_step(n: u64, done: Written)
    ensures
        recorded_of(Write::TakeBack(n), done) is None,
{
}

/// A rename is taken back by its two names, whatever else was said of it.
pub proof fn lemma_renames_are_recorded(from: String, to: String, done: Written)
    ensures
        recorded_of(Write::RenameSkill { from, to }, done) == Some(Intent::Rename { from, to }),
{
}

/// A tag that was created cannot be created again.
pub proof fn lemma_tags_are_created_once(name: Seq<char>, known: Seq<Seq<char>>)
    ensures
        tag_problem(name, known.push(name)) is Some,
{
    assert(known.push(name)[known.len() as int] == name);
}

/// Which writes can be taken back: what a write says of that is recorded, except of those that
/// are gone for good, that change no more than a setting or a name of a source, or that take
/// something back themselves.
pub proof fn lemma_which_writes_are_recorded(write: Write, done: Written)
    ensures
        write is SetSource || write is CreatePreset || write is DescribePreset
            || write is RenamePreset || write is CreateTag || write is DescribeTag
            || write is RenameTag || write is DeleteTag || write is EditTag
            || write is AddToPresets || write is Deploy || write is EditNote ==> recorded_of(
            write,
            done,
        ) == done.intent,
        write is RemoveSkill || write is DiscardSkill || write is DeletePreset || write is Adopt
            || write is ApplyUpdate || write is SetTagsEnabled || write is RenameRepository
            || write is TakeBack ==> recorded_of(write, done) is None,
        write matches Write::RenameSkill { from, to } ==> (recorded_of(write, done) matches Some(
            Intent::Rename { from: f, to: t },
        ) && f == from && t == to),
{
}

/// A write is told by what it was about: by both names of a rename, in their order, by the
/// side that an update was taken from, and by how many skills a tag touched.
pub proof fn lemma_writes_are_told_by_what_they_did(write: Write, done: Written)
    ensures
        write matches Write::RenameSkill { from, to } ==> told_of(write, done) == "renamed "@
            + from@ + " to "@ + to@,
        write matches Write::ApplyUpdate { prepared, take } ==> {
            &&& take == Take::Local ==> told_of(write, done) == prepared.skill@
                + ": kept local; update skipped"@
            &&& take == Take::Upstream ==> told_of(write, done) == prepared.skill@
                + " updated to "@ + short_revision(prepared.to_revision@)
        },
        write is RenameTag ==> told_of(write, done) == "renamed tag on "@ + numeral(
            done.count as int,
        ) + " skill(s)"@,
        write is DeleteTag ==> told_of(write, done) == "removed tag from "@ + numeral(
            done.count as int,
        ) + " skill(s)"@,
        write == Write::SetTagsEnabled(true) ==> told_of(write, done) == "Tags enabled"@,
        write == Write::SetTagsEnabled(false) ==> told_of(write, done) == "Tags disabled"@,
        write matches Write::RemoveSkill { key } ==> told_of(write, done) == "removed "@ + key@,
        write matches Write::DiscardSkill { key } ==> told_of(write, done) == "discarded "@ + key@,
{
}

/// A tag can be created under any name that is no tag yet, stands for no tag and holds no sign
/// between two tags; under any other name it cannot.
pub proof fn lemma_which_tags_can_be_created(name: Seq<char>, known: Seq<Seq<char>>)
    ensures
        known.contains(name) ==> tag_problem(name, known) is Some,
        name == "(untagged)"@ ==> tag_problem(name, known) is Some,
        name.contains(',') ==> tag_problem(name, known) is Some,
        !known.contains(name) && name != "(untagged)"@ && !name.contains(',') ==> tag_problem(
            name,
            known,
        ) is None,
{
}

/// Only the first letter of a sentence changes.
pub proof fn lemma_only_the_first_letter_changes(s: Seq<char>)
    ensures
        s.len() > 0 ==> capitalized(s) == upper(s[0]) + s.subrange(1, s.len() as int),
        s.len() == 0 ==> capitalized(s).len() == 0,
{
    if s.len() > 0 {
        assert(s.skip(1) =~= s.subrange(1, s.len() as int));
    }
}

} // verus!
