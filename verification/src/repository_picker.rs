//! The tree of skills in a repository, of which some are chosen to be installed.
//!
//! A skill and one below it in the tree are never installed together.

use crate::app::{both, complain, complains, nothing, only, Action, Hint};
use crate::event::Task;
use crate::geometry::{monus, spec_min, Rect};
use crate::keymap::{KeyCode, KeyEvent, KeyModifiers, MouseEvent, MouseKind};
use crate::measure::{fit, fitted, lower, to_lowercase};
use crate::model::{SkillRecord, SkillStatus, Snapshot, Source};
use crate::text::{
    after_last, ascending, cat2, cat3, cat4, cat5, chars_of, clone_all, clone_optional,
    comes_before, decimal, has_char, has_prefix, insert_sorted, join, joined, list_holds,
    numeral, pieces, precedes, same_text, slice_of, split, split_words, starts_with,
    strip_prefix, tail_after, texts, trim, trimmed, words,
};
use crate::theme::Theme;
use crate::ui::{
    framed, marked_list, plain_run, run, shown, Draw, DrawView, Line, Lines, Scene, Span, SpanView, Style,
};
use crate::widgets::{
    clamped, empty_input, input_with, is_multiline, moved, paste_refused, Input, InputView, ListNav,
};
use vstd::prelude::*;

verus! {

/// What kind of source a repository is.
#[derive(Debug, Clone, Copy, PartialEq, Eq, Structural)]
pub enum SourceKind {
    Git,
    Archive,
}

/// A source of skills.
#[derive(Debug)]
pub struct Repository {
    pub kind: SourceKind,
    /// The folder that its skills are stored in.
    pub alias: String,
    pub url: String,
    pub branch: String,
    /// The name that it was given.
    pub name: Option<String>,
    /// The name that it is shown under.
    pub display_name: String,
}

/// A skill that was found in a repository.
#[derive(Debug)]
pub struct Candidate {
    /// Where it is in the repository.
    pub path: String,
    pub name: Option<String>,
    /// The name that it gets where none is chosen.
    pub local_name: String,
    /// Why it cannot be installed.
    pub invalid: Option<String>,
    /// The library has it.
    pub installed: bool,
    /// The library had it; its files are gone.
    pub missing: bool,
}

/// A repository that was fetched.
#[derive(Debug)]
pub struct FetchedRepository {
    pub repository: Repository,
    pub revision: String,
    /// Where it was fetched to.
    pub workdir: String,
    pub choices: Vec<Candidate>,
}

/// The name that a skill is to get.
#[derive(Debug)]
pub struct NamedPath {
    pub path: String,
    pub name: String,
}

/// The skills that are to be installed from a repository.
#[derive(Debug)]
pub struct InstallSelection {
    pub fetched: FetchedRepository,
    pub paths: Vec<String>,
    /// The names that were chosen, at most one for each path.
    pub names: Vec<NamedPath>,
}

pub ghost struct RepositoryView {
    pub kind: SourceKind,
    pub alias: Seq<char>,
    pub url: Seq<char>,
    pub branch: Seq<char>,
    pub name: Option<Seq<char>>,
    pub display_name: Seq<char>,
}

impl View for Repository {
    type V = RepositoryView;

    open spec fn view(&self) -> RepositoryView {
        RepositoryView {
            kind: self.kind,
            alias: self.alias@,
            url: self.url@,
            branch: self.branch@,
            name: crate::text::said(self.name),
            display_name: self.display_name@,
        }
    }
}

pub ghost struct SelectionView {
    pub repository: RepositoryView,
    pub revision: Seq<char>,
    pub workdir: Seq<char>,
    pub choices: Seq<Candidate>,
    pub paths: Seq<Seq<char>>,
    pub names: Seq<(Seq<char>, Seq<char>)>,
}

pub open spec fn names_view(names: Seq<NamedPath>) -> Seq<(Seq<char>, Seq<char>)> {
    names.map_values(|n: NamedPath| (n.path@, n.name@))
}

impl View for InstallSelection {
    type V = SelectionView;

    open spec fn view(&self) -> SelectionView {
        SelectionView {
            repository: self.fetched.repository@,
            revision: self.fetched.revision@,
            workdir: self.fetched.workdir@,
            choices: self.fetched.choices@,
            paths: texts(self.paths@),
            names: names_view(self.names@),
        }
    }
}

impl Clone for Repository {
    fn clone(&self) -> (r: Repository)
        ensures
            r == *self,
    {
        Repository {
            kind: self.kind,
            alias: self.alias.clone(),
            url: self.url.clone(),
            branch: self.branch.clone(),
            name: clone_optional(&self.name),
            display_name: self.display_name.clone(),
        }
    }
}

impl Clone for Candidate {
    fn clone(&self) -> (r: Candidate)
        ensures
            r == *self,
    {
        Candidate {
            path: self.path.clone(),
            name: clone_optional(&self.name),
            local_name: self.local_name.clone(),
            invalid: clone_optional(&self.invalid),
            installed: self.installed,
            missing: self.missing,
        }
    }
}

fn clone_choices(choices: &Vec<Candidate>) -> (r: Vec<Candidate>)
    ensures
        r@ == choices@,
{
    let mut out: Vec<Candidate> = Vec::new();
    let mut i: usize = 0;
    while i < choices.len()
        invariant
            i <= choices.len(),
            out@ == choices@.take(i as int),
        decreases choices.len() - i,
    {
        out.push(choices[i].clone());
        i = i + 1;
        assert(out@ =~= choices@.take(i as int));
    }
    assert(out@ =~= choices@);
    out
}

fn clone_names(names: &Vec<NamedPath>) -> (r: Vec<NamedPath>)
    ensures
        names_view(r@) == names_view(names@),
{
    let mut out: Vec<NamedPath> = Vec::new();
    let mut i: usize = 0;
    while i < names.len()
        invariant
            i <= names.len(),
            names_view(out@) == names_view(names@).take(i as int),
        decreases names.len() - i,
    {
        let copy = NamedPath { path: names[i].path.clone(), name: names[i].name.clone() };
        assert(names_view(out@.push(copy)) =~= names_view(out@).push((copy.path@, copy.name@)));
        assert(names_view(names@).take(i + 1) =~= names_view(names@).take(i as int).push(
            (copy.path@, copy.name@),
        ));
        out.push(copy);
        i = i + 1;
    }
    assert(names_view(out@) =~= names_view(names@));
    out
}

impl Clone for InstallSelection {
    fn clone(&self) -> (r: InstallSelection)
        ensures
            r@ == self@,
    {
        InstallSelection {
            fetched: FetchedRepository {
                repository: self.fetched.repository.clone(),
                revision: self.fetched.revision.clone(),
                workdir: self.fetched.workdir.clone(),
                choices: clone_choices(&self.fetched.choices),
            },
            paths: clone_all(&self.paths),
            names: clone_names(&self.names),
        }
    }
}

// ---- paths -------------------------------------------------------------------

/// `above` is a directory around `path`.
pub open spec fn is_ancestor(above: Seq<char>, path: Seq<char>) -> bool {
    if above.len() == 0 {
        path.len() > 0
    } else {
        has_prefix(path, above + "/"@)
    }
}

/// One of two paths is a directory around the other.
pub open spec fn are_related(a: Seq<char>, b: Seq<char>) -> bool {
    is_ancestor(a, b) || is_ancestor(b, a)
}

fn ancestor(above: &str, path: &str) -> (r: bool)
    ensures
        r == is_ancestor(above@, path@),
{
    if chars_of(above).len() == 0 {
        chars_of(path).len() > 0
    } else {
        starts_with(path, cat2(above, "/").as_str())
    }
}

pub fn related(a: &str, b: &str) -> (r: bool)
    ensures
        r == are_related(a@, b@),
{
    ancestor(a, b) || ancestor(b, a)
}

/// The texts that are not empty.
pub open spec fn solid(list: Seq<Seq<char>>) -> Seq<Seq<char>>
    decreases list.len(),
{
    if list.len() == 0 {
        Seq::empty()
    } else if list.last().len() == 0 {
        solid(list.drop_last())
    } else {
        solid(list.drop_last()).push(list.last())
    }
}

/// The directories of a path, and what is in the last one.
pub open spec fn components(path: Seq<char>) -> Seq<Seq<char>> {
    solid(pieces(path, "/"@))
}

fn split_path(path: &str) -> (r: Vec<String>)
    ensures
        texts(r@) == components(path@),
{
    proof {
        reveal_strlit("/");
    }
    let parts = split(path, "/");
    let ghost all = texts(parts@);
    let mut out: Vec<String> = Vec::new();
    let mut i: usize = 0;
    assert(all.take(0) =~= Seq::empty());
    assert(texts(out@) =~= Seq::empty());
    while i < parts.len()
        invariant
            i <= parts.len(),
            all == texts(parts@),
            texts(out@) == solid(all.take(i as int)),
        decreases parts.len() - i,
    {
        assert(all.take(i + 1).drop_last() =~= all.take(i as int));
        assert(all.take(i + 1).last() == parts@[i as int]@);
        if chars_of(parts[i].as_str()).len() > 0 {
            let part = parts[i].clone();
            assert(texts(out@.push(part)) =~= texts(out@).push(part@));
            out.push(part);
        }
        i = i + 1;
    }
    assert(all.take(i as int) =~= all);
    out
}

/// A node of the tree above one path: a directory of it, or it itself.
pub open spec fn node_of(path: Seq<char>, node: Seq<char>) -> bool {
    ||| path.len() == 0 && node.len() == 0
    ||| exists|k: int|
        1 <= k <= components(path).len() && node == #[trigger] joined(
            components(path).take(k),
            "/"@,
        )
}

/// A node of the tree.
pub open spec fn is_node(choices: Seq<Candidate>, node: Seq<char>) -> bool {
    exists|i: int| 0 <= i < choices.len() && node_of(#[trigger] choices[i].path@, node)
}

/// Adds the nodes of one path.
fn add_nodes(nodes: &mut Vec<String>, path: &str)
    requires
        ascending(texts(old(nodes)@)),
    ensures
        ascending(texts(final(nodes)@)),
        forall|n: Seq<char>| #[trigger]
            texts(final(nodes)@).contains(n) <==> texts(old(nodes)@).contains(n) || node_of(
                path@,
                n,
            ),
{
    let ghost start = texts(nodes@);
    if chars_of(path).len() == 0 {
        let root = String::new();
        assert(root@ =~= Seq::empty());
        insert_sorted(nodes, root);
    }
    let ghost rooted = texts(nodes@);
    assert forall|n: Seq<char>| #[trigger]
        rooted.contains(n) <==> start.contains(n) || (path@.len() == 0 && n.len() == 0) by {
        if n.len() == 0 {
            assert(n =~= Seq::empty());
        }
    }
    let parts = split_path(path);
    let ghost all = components(path@);
    let mut at = String::new();
    let mut i: usize = 0;
    while i < parts.len()
        invariant
            i <= parts.len(),
            all == texts(parts@),
            all == components(path@),
            ascending(texts(nodes@)),
            at@ == joined(all.take(i as int), "/"@),
            forall|n: Seq<char>| #[trigger]
                texts(nodes@).contains(n) <==> rooted.contains(n) || exists|k: int|
                    1 <= k <= i && n == #[trigger] joined(all.take(k), "/"@),
        decreases parts.len() - i,
    {
        let ghost before = texts(nodes@);
        if i > 0 {
            at.append("/");
        }
        at.append(parts[i].as_str());
        proof {
            let next = all.take(i + 1);
            assert(next.drop_last() =~= all.take(i as int));
            assert(next.last() == parts@[i as int]@);
            if i == 0 {
                assert(next[0] == parts@[0]@);
                assert(at@ =~= parts@[0]@);
            }
            assert(at@ == joined(next, "/"@));
        }
        insert_sorted(nodes, at.clone());
        proof {
            assert forall|n: Seq<char>| #[trigger]
                texts(nodes@).contains(n) <==> rooted.contains(n) || exists|k: int|
                    1 <= k <= i + 1 && n == #[trigger] joined(all.take(k), "/"@) by {
                assert(texts(nodes@).contains(n) <==> before.contains(n) || n == at@);
                if exists|k: int| 1 <= k <= i + 1 && n == #[trigger] joined(all.take(k), "/"@) {
                    let k = choose|k: int|
                        1 <= k <= i + 1 && n == #[trigger] joined(all.take(k), "/"@);
                    if k <= i {
                        assert(before.contains(n));
                    } else {
                        assert(n == at@);
                    }
                }
                if n == at@ {
                    assert(n == joined(all.take(i + 1), "/"@));
                }
            }
        }
        i = i + 1;
    }
}

/// All nodes of the tree, in order.
pub fn tree(choices: &Vec<Candidate>) -> (r: Vec<String>)
    ensures
        ascending(texts(r@)),
        forall|n: Seq<char>| #[trigger] texts(r@).contains(n) <==> is_node(choices@, n),
{
    let mut nodes: Vec<String> = Vec::new();
    let mut i: usize = 0;
    while i < choices.len()
        invariant
            i <= choices.len(),
            ascending(texts(nodes@)),
            forall|n: Seq<char>| #[trigger]
                texts(nodes@).contains(n) <==> exists|k: int|
                    0 <= k < i && node_of(#[trigger] choices@[k].path@, n),
        decreases choices.len() - i,
    {
        let ghost before = texts(nodes@);
        add_nodes(&mut nodes, choices[i].path.as_str());
        proof {
            assert forall|n: Seq<char>| #[trigger]
                texts(nodes@).contains(n) <==> exists|k: int|
                    0 <= k < i + 1 && node_of(#[trigger] choices@[k].path@, n) by {
                assert(texts(nodes@).contains(n) <==> before.contains(n) || node_of(
                    choices@[i as int].path@,
                    n,
                ));
                if exists|k: int| 0 <= k < i + 1 && node_of(#[trigger] choices@[k].path@, n) {
                    let k = choose|k: int|
                        0 <= k < i + 1 && node_of(#[trigger] choices@[k].path@, n);
                    if k < i {
                        assert(before.contains(n));
                    }
                }
            }
        }
        i = i + 1;
    }
    nodes
}

// ---- the query ---------------------------------------------------------------

/// A text without the slashes at its begin.
pub open spec fn unslashed(s: Seq<char>) -> Seq<char>
    decreases s.len(),
{
    if s.len() > 0 && s[0] == '/' {
        unslashed(s.skip(1))
    } else {
        s
    }
}

fn unslash(text: &str) -> (r: String)
    ensures
        r@ == unslashed(text@),
{
    let chars = chars_of(text);
    let mut i: usize = 0;
    assert(chars@.skip(0) =~= chars@);
    while i < chars.len() && chars[i] == '/'
        invariant
            i <= chars.len(),
            unslashed(text@) == unslashed(chars@.skip(i as int)),
        decreases chars.len() - i,
    {
        assert(chars@.skip(i as int).skip(1) =~= chars@.skip(i + 1));
        i = i + 1;
    }
    assert(chars@.subrange(i as int, chars@.len() as int) =~= chars@.skip(i as int));
    slice_of(&chars, i, chars.len())
}

/// A word of a query speaks of a path where it has a slash in it.
pub open spec fn is_path_word(word: Seq<char>) -> bool {
    word.contains('/')
}

/// What a path has to begin with, seen from the root of the repository.
pub open spec fn path_prefix(word: Seq<char>) -> Seq<char> {
    lower(
        unslashed(
            if has_prefix(word, "./"@) {
                word.skip(2)
            } else {
                word
            },
        ),
    )
}

/// The words that do not speak of a path.
pub open spec fn free_words(list: Seq<Seq<char>>) -> Seq<Seq<char>>
    decreases list.len(),
{
    if list.len() == 0 {
        Seq::empty()
    } else if is_path_word(list.last()) {
        free_words(list.drop_last())
    } else {
        free_words(list.drop_last()).push(list.last())
    }
}

/// What the other words ask of a path.
pub open spec fn path_prefixes(list: Seq<Seq<char>>) -> Seq<Seq<char>>
    decreases list.len(),
{
    if list.len() == 0 {
        Seq::empty()
    } else if is_path_word(list.last()) {
        path_prefixes(list.drop_last()).push(path_prefix(list.last()))
    } else {
        path_prefixes(list.drop_last())
    }
}

/// Parts the free text of a query: what is searched for, and what paths have to begin
/// with.
pub fn path_tokens(text: &str) -> (r: (String, Vec<String>))
    ensures
        r.0@ == joined(free_words(words(text@)), " "@),
        texts(r.1@) == path_prefixes(words(text@)),
{
    proof {
        reveal_strlit("./");
    }
    let tokens = split_words(text);
    let ghost all = texts(tokens@);
    let mut free: Vec<String> = Vec::new();
    let mut prefixes: Vec<String> = Vec::new();
    let mut i: usize = 0;
    assert(all.take(0) =~= Seq::empty());
    assert(texts(free@) =~= Seq::empty());
    assert(texts(prefixes@) =~= Seq::empty());
    while i < tokens.len()
        invariant
            i <= tokens.len(),
            all == texts(tokens@),
            "./"@.len() == 2,
            texts(free@) == free_words(all.take(i as int)),
            texts(prefixes@) == path_prefixes(all.take(i as int)),
        decreases tokens.len() - i,
    {
        assert(all.take(i + 1).drop_last() =~= all.take(i as int));
        assert(all.take(i + 1).last() == tokens@[i as int]@);
        let token = tokens[i].clone();
        if has_char(token.as_str(), '/') {
            let bare = match strip_prefix(token.as_str(), "./") {
                Some(rest) => rest,
                None => token,
            };
            let prefix = to_lowercase(unslash(bare.as_str()).as_str());
            assert(texts(prefixes@.push(prefix)) =~= texts(prefixes@).push(prefix@));
            prefixes.push(prefix);
        } else {
            assert(texts(free@.push(token)) =~= texts(free@).push(token@));
            free.push(token);
        }
        i = i + 1;
    }
    assert(all.take(i as int) =~= all);
    (join(&free, " "), prefixes)
}

/// A path begins with all that is asked of it.
pub open spec fn has_prefixes(path: Seq<char>, prefixes: Seq<Seq<char>>) -> bool {
    forall|i: int| 0 <= i < prefixes.len() ==> has_prefix(lower(path), #[trigger] prefixes[i])
}

fn begins_with_all(path: &str, prefixes: &Vec<String>) -> (r: bool)
    ensures
        r == has_prefixes(path@, texts(prefixes@)),
{
    let small = to_lowercase(path);
    let ghost all = texts(prefixes@);
    let mut i: usize = 0;
    while i < prefixes.len()
        invariant
            i <= prefixes.len(),
            all == texts(prefixes@),
            small@ == lower(path@),
            forall|k: int| 0 <= k < i ==> has_prefix(lower(path@), #[trigger] all[k]),
        decreases prefixes.len() - i,
    {
        if !starts_with(small.as_str(), prefixes[i].as_str()) {
            assert(!has_prefix(lower(path@), all[i as int]));
            return false;
        }
        i = i + 1;
    }
    true
}

/// A path of the search that meets the rest of the query.
pub open spec fn is_match(hits: Seq<Seq<char>>, prefixes: Seq<Seq<char>>, path: Seq<char>) -> bool {
    hits.contains(path) && has_prefixes(path, prefixes)
}

/// The matches, in order and each once.
fn match_hits(hits: &Vec<String>, prefixes: &Vec<String>) -> (r: Vec<String>)
    ensures
        ascending(texts(r@)),
        forall|p: Seq<char>| #[trigger]
            texts(r@).contains(p) <==> is_match(texts(hits@), texts(prefixes@), p),
{
    let mut out: Vec<String> = Vec::new();
    let ghost all = texts(hits@);
    let ghost wanted = texts(prefixes@);
    let mut i: usize = 0;
    while i < hits.len()
        invariant
            i <= hits.len(),
            all == texts(hits@),
            wanted == texts(prefixes@),
            ascending(texts(out@)),
            forall|p: Seq<char>| #[trigger]
                texts(out@).contains(p) <==> exists|k: int|
                    0 <= k < i && #[trigger] all[k] == p && has_prefixes(p, wanted),
        decreases hits.len() - i,
    {
        let ghost before = texts(out@);
        assert(all[i as int] == hits@[i as int]@);
        let fits = begins_with_all(hits[i].as_str(), prefixes);
        if fits {
            insert_sorted(&mut out, hits[i].clone());
        }
        proof {
            assert forall|p: Seq<char>| #[trigger]
                texts(out@).contains(p) <==> exists|k: int|
                    0 <= k < i + 1 && #[trigger] all[k] == p && has_prefixes(p, wanted) by {
                assert(texts(out@).contains(p) <==> before.contains(p) || (fits && p
                    == all[i as int]));
                if exists|k: int|
                    0 <= k < i + 1 && #[trigger] all[k] == p && has_prefixes(p, wanted) {
                    let k = choose|k: int|
                        0 <= k < i + 1 && #[trigger] all[k] == p && has_prefixes(p, wanted);
                    if k < i {
                        assert(before.contains(p));
                    }
                }
            }
        }
        i = i + 1;
    }
    proof {
        assert forall|p: Seq<char>| #[trigger]
            texts(out@).contains(p) <==> is_match(all, wanted, p) by {
            if all.contains(p) {
                let k = choose|k: int| 0 <= k < all.len() && all[k] == p;
                assert(all[k] == p);
            }
        }
    }
    out
}

/// A node is shown where it is a match, or stands above or below one.
pub open spec fn is_shown(matching: Seq<Seq<char>>, node: Seq<char>) -> bool {
    exists|i: int|
        0 <= i < matching.len() && (#[trigger] matching[i] == node || are_related(node, matching[i]))
}

fn shows(matching: &Vec<String>, node: &str) -> (r: bool)
    ensures
        r == is_shown(texts(matching@), node@),
{
    let ghost all = texts(matching@);
    let mut i: usize = 0;
    while i < matching.len()
        invariant
            i <= matching.len(),
            all == texts(matching@),
            forall|k: int|
                0 <= k < i ==> !(#[trigger] all[k] == node@ || are_related(node@, all[k])),
        decreases matching.len() - i,
    {
        assert(all[i as int] == matching@[i as int]@);
        if same_text(matching[i].as_str(), node) || related(node, matching[i].as_str()) {
            return true;
        }
        i = i + 1;
    }
    false
}

/// The nodes that are shown, in order.
pub open spec fn shown_nodes(
    choices: Seq<Candidate>,
    matching: Seq<Seq<char>>,
    nodes: Seq<Seq<char>>,
) -> bool {
    &&& ascending(nodes)
    &&& forall|n: Seq<char>| #[trigger]
        nodes.contains(n) <==> is_node(choices, n) && is_shown(matching, n)
}

fn filter_tree(choices: &Vec<Candidate>, matching: &Vec<String>) -> (r: Vec<String>)
    ensures
        shown_nodes(choices@, texts(matching@), texts(r@)),
{
    let nodes = tree(choices);
    let ghost all = texts(nodes@);
    let ghost wanted = texts(matching@);
    let mut out: Vec<String> = Vec::new();
    let mut i: usize = 0;
    while i < nodes.len()
        invariant
            i <= nodes.len(),
            all == texts(nodes@),
            wanted == texts(matching@),
            ascending(texts(out@)),
            forall|n: Seq<char>| #[trigger]
                texts(out@).contains(n) <==> exists|k: int|
                    0 <= k < i && #[trigger] all[k] == n && is_shown(wanted, n),
        decreases nodes.len() - i,
    {
        let ghost before = texts(out@);
        assert(all[i as int] == nodes@[i as int]@);
        let wants = shows(matching, nodes[i].as_str());
        if wants {
            insert_sorted(&mut out, nodes[i].clone());
        }
        proof {
            assert forall|n: Seq<char>| #[trigger]
                texts(out@).contains(n) <==> exists|k: int|
                    0 <= k < i + 1 && #[trigger] all[k] == n && is_shown(wanted, n) by {
                assert(texts(out@).contains(n) <==> before.contains(n) || (wants && n
                    == all[i as int]));
                if exists|k: int| 0 <= k < i + 1 && #[trigger] all[k] == n && is_shown(wanted, n) {
                    let k = choose|k: int|
                        0 <= k < i + 1 && #[trigger] all[k] == n && is_shown(wanted, n);
                    if k < i {
                        assert(before.contains(n));
                    }
                }
            }
        }
        i = i + 1;
    }
    proof {
        assert forall|n: Seq<char>| #[trigger]
            texts(out@).contains(n) <==> is_node(choices@, n) && is_shown(wanted, n) by {
            assert(all.contains(n) <==> is_node(choices@, n));
            if all.contains(n) {
                let k = choose|k: int| 0 <= k < all.len() && all[k] == n;
                assert(all[k] == n);
            }
        }
    }
    out
}

// ---- the dialog --------------------------------------------------------------

/// What the keys go to.
#[derive(Debug, Clone, Copy, PartialEq, Eq, Structural)]
pub enum RepositoryFocus {
    /// The folder that the skills are stored in.
    Alias,
    Search,
    List,
    /// The name of the selected skill.
    LocalName,
    SourceName,
}

/// What is done once a search has answered.
#[derive(Debug, Clone, Copy, PartialEq, Eq, Structural)]
pub enum Resume {
    Focus { backwards: bool },
    List,
    Install,
    Press(MouseEvent),
}

/// A name that a source may have, and what it is then shown as.
#[derive(Debug)]
pub struct SourceName {
    pub name: Option<String>,
    pub display_name: String,
}

/// What is known of the fields before a key or a press is handled: whether their texts are
/// names that the library takes, and the name that the selected skill would get.
#[derive(Debug)]
pub struct Checks {
    pub alias_ok: bool,
    pub name_ok: bool,
    pub source_name: Result<SourceName, String>,
    pub local_name: String,
}

#[derive(Debug)]
pub struct RepositoryPicker {
    pub selection: InstallSelection,
    pub source_name: Input,
    pub alias: Input,
    pub search: Input,
    /// Where suggestions for the search are shown.
    pub suggestions: Option<Rect>,
    pub local_name: Input,
    pub focus: RepositoryFocus,
    pub list: ListNav,
    pub shown: Vec<String>,
    pub matching: Vec<String>,
    /// The skill whose text is shown over the dialog.
    pub preview: Option<String>,
    pub rect: Rect,
    pub alias_field: Rect,
    pub search_field: Rect,
    pub name_field: Rect,
    pub source_field: Rect,
}

pub ghost struct RepositoryPickerView {
    pub selection: SelectionView,
    pub source_name: InputView,
    pub alias: InputView,
    pub search: InputView,
    pub suggestions: Option<Rect>,
    pub local_name: InputView,
    pub focus: RepositoryFocus,
    pub list: ListNav,
    pub shown: Seq<Seq<char>>,
    pub matching: Seq<Seq<char>>,
    pub preview: Option<Seq<char>>,
    pub rect: Rect,
    pub alias_field: Rect,
    pub search_field: Rect,
    pub name_field: Rect,
    pub source_field: Rect,
}

impl View for RepositoryPicker {
    type V = RepositoryPickerView;

    open spec fn view(&self) -> RepositoryPickerView {
        RepositoryPickerView {
            selection: self.selection@,
            source_name: self.source_name@,
            alias: self.alias@,
            search: self.search@,
            suggestions: self.suggestions,
            local_name: self.local_name@,
            focus: self.focus,
            list: self.list,
            shown: texts(self.shown@),
            matching: texts(self.matching@),
            preview: crate::text::said(self.preview),
            rect: self.rect,
            alias_field: self.alias_field,
            search_field: self.search_field,
            name_field: self.name_field,
            source_field: self.source_field,
        }
    }
}

/// What the dialog asks of the application.
pub ghost enum RepositoryReply {
    Nothing,
    Complain(Seq<char>),
    /// The candidates are searched, and something may wait for the answer.
    Search { query: Seq<char>, wait: Option<Resume> },
    /// Suggestions for the search are looked up.
    Suggest,
    /// Nothing is installed.
    Leave(Seq<char>),
    /// The names of what is installed are settled.
    Resolve(SelectionView),
    Forward,
}

impl RepositoryReply {
    pub open spec fn told(self, actions: Seq<Action>) -> bool {
        match self {
            RepositoryReply::Nothing => actions.len() == 0,
            RepositoryReply::Complain(text) => complains(actions, text),
            RepositoryReply::Search { query, wait } => {
                &&& actions.len() == if wait is Some {
                    2
                } else {
                    1nat
                }
                &&& (actions[0] matches Action::SearchCandidates(text) && text@ == query)
                &&& wait is Some ==> actions[1] == Action::ResumeRepository(wait->0)
            },
            RepositoryReply::Suggest => actions == seq![Action::SuggestCandidates],
            RepositoryReply::Leave(workdir) => {
                &&& actions.len() == 2
                &&& (actions[0] matches Action::DiscardFetched(path) && path@ == workdir)
                &&& actions[1] == Action::CloseModal
            },
            RepositoryReply::Resolve(selection) => {
                &&& actions.len() == 1
                &&& (actions[0] matches Action::ResolveNames(chosen) && chosen@ == selection)
            },
            RepositoryReply::Forward => actions == seq![Action::Forward],
        }
    }
}

/// The first skill with this path.
pub open spec fn choice_from(choices: Seq<Candidate>, path: Seq<char>, at: int) -> Option<int>
    decreases choices.len() - at,
{
    if at < 0 || at >= choices.len() {
        None
    } else if choices[at].path@ == path {
        Some(at)
    } else {
        choice_from(choices, path, at + 1)
    }
}

pub open spec fn choice_at(choices: Seq<Candidate>, path: Seq<char>) -> Option<int> {
    choice_from(choices, path, 0)
}

pub(crate) fn find_choice(choices: &Vec<Candidate>, path: &str) -> (r: Option<usize>)
    ensures
        match r {
            Some(i) => choice_at(choices@, path@) == Some(i as int) && i < choices@.len(),
            None => choice_at(choices@, path@) is None,
        },
{
    let mut i: usize = 0;
    while i < choices.len()
        invariant
            i <= choices.len(),
            choice_at(choices@, path@) == choice_from(choices@, path@, i as int),
        decreases choices.len() - i,
    {
        if same_text(choices[i].path.as_str(), path) {
            return Some(i);
        }
        i = i + 1;
    }
    None
}

/// The paths that are `keep`.
pub open spec fn kept(paths: Seq<Seq<char>>, keep: spec_fn(Seq<char>) -> bool) -> Seq<Seq<char>>
    decreases paths.len(),
{
    if paths.len() == 0 {
        Seq::empty()
    } else if keep(paths.last()) {
        kept(paths.drop_last(), keep).push(paths.last())
    } else {
        kept(paths.drop_last(), keep)
    }
}

pub open spec fn differs(path: Seq<char>) -> spec_fn(Seq<char>) -> bool {
    |p: Seq<char>| p != path
}

pub open spec fn others(paths: Seq<Seq<char>>, path: Seq<char>) -> Seq<Seq<char>> {
    kept(paths, differs(path))
}

pub open spec fn unrelated(paths: Seq<Seq<char>>, path: Seq<char>) -> Seq<Seq<char>> {
    kept(paths, |p: Seq<char>| !are_related(p, path))
}

pub open spec fn among(paths: Seq<Seq<char>>, matching: Seq<Seq<char>>) -> Seq<Seq<char>> {
    kept(paths, |p: Seq<char>| matching.contains(p))
}

fn take_others(paths: &Vec<String>, path: &str) -> (r: Vec<String>)
    ensures
        texts(r@) == others(texts(paths@), path@),
{
    let mut out: Vec<String> = Vec::new();
    let ghost all = texts(paths@);
    let ghost keep = differs(path@);
    let mut i: usize = 0;
    assert(all.take(0) =~= Seq::empty());
    assert(texts(out@) =~= Seq::empty());
    while i < paths.len()
        invariant
            i <= paths.len(),
            all == texts(paths@),
            keep == differs(path@),
            texts(out@) == kept(all.take(i as int), keep),
        decreases paths.len() - i,
    {
        assert(all.take(i + 1).drop_last() =~= all.take(i as int));
        assert(all.take(i + 1).last() == paths@[i as int]@);
        if !same_text(paths[i].as_str(), path) {
            let copy = paths[i].clone();
            assert(texts(out@.push(copy)) =~= texts(out@).push(copy@));
            out.push(copy);
        }
        i = i + 1;
    }
    assert(all.take(i as int) =~= all);
    out
}

fn take_unrelated(paths: &Vec<String>, path: &str) -> (r: Vec<String>)
    ensures
        texts(r@) == unrelated(texts(paths@), path@),
{
    let mut out: Vec<String> = Vec::new();
    let ghost all = texts(paths@);
    let ghost keep = |p: Seq<char>| !are_related(p, path@);
    let mut i: usize = 0;
    assert(all.take(0) =~= Seq::empty());
    assert(texts(out@) =~= Seq::empty());
    while i < paths.len()
        invariant
            i <= paths.len(),
            all == texts(paths@),
            keep == |p: Seq<char>| !are_related(p, path@),
            texts(out@) == kept(all.take(i as int), keep),
        decreases paths.len() - i,
    {
        assert(all.take(i + 1).drop_last() =~= all.take(i as int));
        assert(all.take(i + 1).last() == paths@[i as int]@);
        if !related(paths[i].as_str(), path) {
            let copy = paths[i].clone();
            assert(texts(out@.push(copy)) =~= texts(out@).push(copy@));
            out.push(copy);
        }
        i = i + 1;
    }
    assert(all.take(i as int) =~= all);
    out
}

fn take_among(paths: &Vec<String>, matching: &Vec<String>) -> (r: Vec<String>)
    ensures
        texts(r@) == among(texts(paths@), texts(matching@)),
{
    let mut out: Vec<String> = Vec::new();
    let ghost all = texts(paths@);
    let ghost wanted = texts(matching@);
    let ghost keep = |p: Seq<char>| wanted.contains(p);
    let mut i: usize = 0;
    assert(all.take(0) =~= Seq::empty());
    assert(texts(out@) =~= Seq::empty());
    while i < paths.len()
        invariant
            i <= paths.len(),
            all == texts(paths@),
            wanted == texts(matching@),
            keep == |p: Seq<char>| wanted.contains(p),
            texts(out@) == kept(all.take(i as int), keep),
        decreases paths.len() - i,
    {
        assert(all.take(i + 1).drop_last() =~= all.take(i as int));
        assert(all.take(i + 1).last() == paths@[i as int]@);
        if list_holds(matching, paths[i].as_str()) {
            let copy = paths[i].clone();
            assert(texts(out@.push(copy)) =~= texts(out@).push(copy@));
            out.push(copy);
        }
        i = i + 1;
    }
    assert(all.take(i as int) =~= all);
    out
}

/// Where the name for a path is.
pub open spec fn name_from(names: Seq<(Seq<char>, Seq<char>)>, path: Seq<char>, at: int) -> Option<int>
    decreases names.len() - at,
{
    if at < 0 || at >= names.len() {
        None
    } else if names[at].0 == path {
        Some(at)
    } else {
        name_from(names, path, at + 1)
    }
}

/// Where a path belongs among those that have a name, which are in order.
pub open spec fn place_from(names: Seq<(Seq<char>, Seq<char>)>, path: Seq<char>, at: int) -> int
    decreases names.len() - at,
{
    if at < 0 || at >= names.len() {
        names.len() as int
    } else if precedes(names[at].0, path) {
        place_from(names, path, at + 1)
    } else {
        at
    }
}

/// The names, with this one for this path.
pub open spec fn named_with(
    names: Seq<(Seq<char>, Seq<char>)>,
    path: Seq<char>,
    name: Seq<char>,
) -> Seq<(Seq<char>, Seq<char>)> {
    match name_from(names, path, 0) {
        Some(i) => names.update(i, (path, name)),
        None => names.insert(place_from(names, path, 0), (path, name)),
    }
}

/// The name for a path.
pub open spec fn name_for(names: Seq<(Seq<char>, Seq<char>)>, path: Seq<char>) -> Option<Seq<char>> {
    match name_from(names, path, 0) {
        Some(i) => Some(names[i].1),
        None => None,
    }
}

fn find_name(names: &Vec<NamedPath>, path: &str) -> (r: Option<usize>)
    ensures
        match r {
            Some(i) => name_from(names_view(names@), path@, 0) == Some(i as int) && i < names@.len(),
            None => name_from(names_view(names@), path@, 0) is None,
        },
{
    let ghost all = names_view(names@);
    let mut i: usize = 0;
    while i < names.len()
        invariant
            i <= names.len(),
            all == names_view(names@),
            name_from(all, path@, 0) == name_from(all, path@, i as int),
        decreases names.len() - i,
    {
        assert(all[i as int].0 == names@[i as int].path@);
        if same_text(names[i].path.as_str(), path) {
            return Some(i);
        }
        i = i + 1;
    }
    None
}

fn set_name(names: &mut Vec<NamedPath>, path: &str, name: String)
    ensures
        names_view(final(names)@) == named_with(names_view(old(names)@), path@, name@),
{
    let entry = NamedPath { path: path.to_owned(), name };
    match find_name(names, path) {
        Some(i) => {
            let ghost before = names@;
            names.set(i, entry);
            assert(names_view(names@) =~= names_view(before).update(i as int, (path@, name@)));
        },
        None => {
            let ghost before = names@;
            let ghost all = names_view(names@);
            let mut i: usize = 0;
            while i < names.len() && comes_before(names[i].path.as_str(), path)
                invariant
                    i <= names.len(),
                    all == names_view(names@),
                    place_from(all, path@, 0) == place_from(all, path@, i as int),
                decreases names.len() - i,
            {
                i = i + 1;
            }
            names.insert(i, entry);
            assert(names_view(names@) =~= all.insert(i as int, (path@, name@)));
        },
    }
}

impl RepositoryFocus {
    /// The next field, going round.
    pub open spec fn next(self, backwards: bool) -> RepositoryFocus {
        match self {
            RepositoryFocus::SourceName => if backwards {
                RepositoryFocus::LocalName
            } else {
                RepositoryFocus::Alias
            },
            RepositoryFocus::Alias => if backwards {
                RepositoryFocus::SourceName
            } else {
                RepositoryFocus::Search
            },
            RepositoryFocus::Search => if backwards {
                RepositoryFocus::Alias
            } else {
                RepositoryFocus::List
            },
            RepositoryFocus::List => if backwards {
                RepositoryFocus::Search
            } else {
                RepositoryFocus::LocalName
            },
            RepositoryFocus::LocalName => if backwards {
                RepositoryFocus::List
            } else {
                RepositoryFocus::SourceName
            },
        }
    }

    fn neighbour(self, backwards: bool) -> (r: RepositoryFocus)
        ensures
            r == self.next(backwards),
    {
        match self {
            RepositoryFocus::SourceName => if backwards {
                RepositoryFocus::LocalName
            } else {
                RepositoryFocus::Alias
            },
            RepositoryFocus::Alias => if backwards {
                RepositoryFocus::SourceName
            } else {
                RepositoryFocus::Search
            },
            RepositoryFocus::Search => if backwards {
                RepositoryFocus::Alias
            } else {
                RepositoryFocus::List
            },
            RepositoryFocus::List => if backwards {
                RepositoryFocus::Search
            } else {
                RepositoryFocus::LocalName
            },
            RepositoryFocus::LocalName => if backwards {
                RepositoryFocus::List
            } else {
                RepositoryFocus::SourceName
            },
        }
    }
}

/// What saving a field came to.
pub ghost enum Saved {
    Done,
    /// The candidates have another name now: they are searched again.
    Renamed,
    Refused(Seq<char>),
}

impl RepositoryPickerView {
    pub open spec fn valid(self) -> bool {
        &&& self.source_name.valid()
        &&& self.alias.valid()
        &&& self.search.valid()
        &&& self.local_name.valid()
    }

    pub open spec fn passes(self, path: Seq<char>) -> bool {
        self.matching.contains(path)
    }

    /// The selected node.
    pub open spec fn selected(self) -> Option<Seq<char>> {
        match self.list.selected {
            Some(i) => if i < self.shown.len() {
                Some(self.shown[i as int])
            } else {
                None
            },
            None => None,
        }
    }

    /// A path that is chosen, and not filtered out, stands above or below this one.
    pub open spec fn blocked(self, path: Seq<char>) -> bool {
        exists|i: int|
            0 <= i < self.selection.paths.len() && self.passes(
                #[trigger] self.selection.paths[i],
            ) && are_related(self.selection.paths[i], path)
    }

    /// Why a skill cannot be chosen.
    pub open spec fn disabled(self, path: Seq<char>) -> Option<Seq<char>> {
        let choices = self.selection.choices;
        let at = choice_at(choices, path);
        if at is Some && choices[at->0].invalid is Some {
            Some("invalid: "@ + choices[at->0].invalid->0@)
        } else if !self.passes(path) {
            Some("outside current filter"@)
        } else if self.blocked(path) {
            Some("ancestor or descendant selected"@)
        } else if at is Some && choices[at->0].installed {
            Some("already installed"@)
        } else {
            None
        }
    }

    pub open spec fn with_paths(self, paths: Seq<Seq<char>>) -> RepositoryPickerView {
        RepositoryPickerView {
            selection: SelectionView { paths, ..self.selection },
            ..self
        }
    }

    /// A skill is chosen or given up.
    pub open spec fn toggled(self, path: Seq<char>) -> (RepositoryPickerView, RepositoryReply) {
        let paths = self.selection.paths;
        if choice_at(self.selection.choices, path) is None {
            (self, RepositoryReply::Nothing)
        } else if paths.contains(path) {
            (self.with_paths(others(paths, path)), RepositoryReply::Nothing)
        } else {
            match self.disabled(path) {
                Some(reason) => (self, RepositoryReply::Complain(reason)),
                None => (
                    self.with_paths(unrelated(paths, path).push(path)),
                    RepositoryReply::Nothing,
                ),
            }
        }
    }

    pub open spec fn with_focus(self, focus: RepositoryFocus) -> RepositoryPickerView {
        RepositoryPickerView { focus, ..self }
    }

    /// The source gets the name that was typed.
    pub open spec fn source_saved(self, checks: Checks) -> (RepositoryPickerView, Saved) {
        match checks.source_name {
            Err(error) => (
                self.with_focus(RepositoryFocus::SourceName),
                Saved::Refused(error@),
            ),
            Ok(source) => (
                RepositoryPickerView {
                    selection: SelectionView {
                        repository: RepositoryView {
                            name: crate::text::said(source.name),
                            display_name: source.display_name@,
                            ..self.selection.repository
                        },
                        ..self.selection
                    },
                    ..self
                },
                Saved::Renamed,
            ),
        }
    }

    pub open spec fn alias_saved(self) -> RepositoryPickerView {
        RepositoryPickerView {
            selection: SelectionView {
                repository: RepositoryView {
                    alias: trimmed(self.alias.text),
                    ..self.selection.repository
                },
                ..self.selection
            },
            ..self
        }
    }

    /// The field that has the focus is saved.
    pub open spec fn saved(self, checks: Checks) -> (RepositoryPickerView, Saved) {
        match self.focus {
            RepositoryFocus::Alias => if checks.alias_ok {
                (self.alias_saved(), Saved::Done)
            } else {
                (self, Saved::Refused("invalid storage folder"@))
            },
            RepositoryFocus::LocalName => match self.selected() {
                None => (self, Saved::Done),
                Some(path) => if checks.name_ok {
                    (
                        RepositoryPickerView {
                            selection: SelectionView {
                                names: named_with(
                                    self.selection.names,
                                    path,
                                    trimmed(self.local_name.text),
                                ),
                                ..self.selection
                            },
                            ..self
                        },
                        Saved::Done,
                    )
                } else {
                    (self, Saved::Refused("invalid local skill name"@))
                },
            },
            RepositoryFocus::SourceName => self.source_saved(checks),
            _ => (self, Saved::Done),
        }
    }

    pub open spec fn searching(self, wait: Option<Resume>) -> (RepositoryPickerView, RepositoryReply) {
        (self, RepositoryReply::Search { query: self.search.text, wait })
    }

    /// The selected node is a skill, whose name can be edited.
    pub open spec fn nameable(self) -> bool {
        self.selected() is Some && choice_at(self.selection.choices, self.selected()->0) is Some
    }

    pub open spec fn naming(self, checks: Checks) -> RepositoryPickerView {
        if self.nameable() {
            RepositoryPickerView {
                local_name: input_with(checks.local_name@),
                focus: RepositoryFocus::LocalName,
                ..self
            }
        } else {
            self
        }
    }

    /// The focus goes to the next field.
    pub open spec fn refocused(self, backwards: bool, checks: Checks) -> RepositoryPickerView {
        let to = self.focus.next(backwards);
        let after = if to == RepositoryFocus::LocalName {
            if self.nameable() {
                self.naming(checks)
            } else if backwards {
                self.with_focus(RepositoryFocus::List)
            } else {
                self.with_focus(RepositoryFocus::SourceName)
            }
        } else {
            self.with_focus(to)
        };
        RepositoryPickerView { suggestions: None, ..after }
    }

    pub open spec fn listing(self) -> RepositoryPickerView {
        RepositoryPickerView { focus: RepositoryFocus::List, suggestions: None, ..self }
    }

    /// The chosen skills that are not filtered out are installed.
    pub open spec fn installing(self) -> RepositoryReply {
        let paths = among(self.selection.paths, self.matching);
        if paths.len() == 0 {
            RepositoryReply::Complain("select at least one skill in the current filter"@)
        } else {
            RepositoryReply::Resolve(SelectionView { paths, ..self.selection })
        }
    }

    /// What waited for a search goes on.
    pub open spec fn resumed(self, step: Resume, checks: Checks) -> (
        RepositoryPickerView,
        RepositoryReply,
    ) {
        match step {
            Resume::Focus { backwards } => (
                self.refocused(backwards, checks),
                RepositoryReply::Nothing,
            ),
            Resume::List => (self.listing(), RepositoryReply::Nothing),
            Resume::Install => (self, self.installing()),
            Resume::Press(event) => self.pressed(event, checks),
        }
    }

    /// The field is saved, and then something else is done.
    pub open spec fn saved_then(self, step: Resume, checks: Checks) -> (
        RepositoryPickerView,
        RepositoryReply,
    ) {
        let (after, outcome) = self.saved(checks);
        match outcome {
            Saved::Refused(error) => (after, RepositoryReply::Complain(error)),
            Saved::Renamed => after.searching(Some(step)),
            Saved::Done => after.resumed(step, checks),
        }
    }

    /// A press inside the dialog.
    pub open spec fn pressed(self, event: MouseEvent, checks: Checks) -> (
        RepositoryPickerView,
        RepositoryReply,
    ) {
        let x = event.column as int;
        let y = event.row as int;
        if self.name_field.has(x, y) {
            let after = if self.focus == RepositoryFocus::LocalName {
                self
            } else {
                self.naming(checks)
            };
            (
                RepositoryPickerView { local_name: after.local_name.clicked(x), ..after },
                RepositoryReply::Nothing,
            )
        } else if self.alias_field.has(x, y) {
            (
                RepositoryPickerView {
                    alias: self.alias.clicked(x),
                    focus: RepositoryFocus::Alias,
                    ..self
                },
                RepositoryReply::Nothing,
            )
        } else if self.search_field.has(x, y) {
            (
                RepositoryPickerView {
                    search: self.search.clicked(x),
                    focus: RepositoryFocus::Search,
                    ..self
                },
                RepositoryReply::Suggest,
            )
        } else if self.source_field.has(x, y) {
            (
                RepositoryPickerView {
                    source_name: self.source_name.clicked(x),
                    focus: RepositoryFocus::SourceName,
                    ..self
                },
                RepositoryReply::Nothing,
            )
        } else if self.list.rows.has(x, y) {
            match self.list.hit(y, self.shown.len() as int) {
                Some(at) => RepositoryPickerView {
                    list: ListNav { selected: Some(at), ..self.list },
                    focus: RepositoryFocus::List,
                    ..self
                }.toggled(self.shown[at as int]),
                None => (self, RepositoryReply::Nothing),
            }
        } else {
            (self, RepositoryReply::Nothing)
        }
    }

    /// A key in the search field, where it is not one that leaves it for another field.
    pub open spec fn search_keyed(self, key: KeyEvent) -> (RepositoryPickerView, RepositoryReply) {
        let open = self.suggestions is Some;
        match key.code {
            KeyCode::Esc => if open {
                (RepositoryPickerView { suggestions: None, ..self }, RepositoryReply::Nothing)
            } else {
                (self.with_focus(RepositoryFocus::List), RepositoryReply::Nothing)
            },
            KeyCode::Enter => if open {
                (self, RepositoryReply::Forward)
            } else {
                (self.with_focus(RepositoryFocus::List), RepositoryReply::Nothing)
            },
            KeyCode::Down => if open {
                (self, RepositoryReply::Forward)
            } else {
                (self.with_focus(RepositoryFocus::List), RepositoryReply::Nothing)
            },
            KeyCode::Up => if open {
                (self, RepositoryReply::Forward)
            } else {
                (self, RepositoryReply::Suggest)
            },
            _ => {
                let after = RepositoryPickerView { search: self.search.keyed(key), ..self };
                if self.search.edits(key) {
                    after.searching(None)
                } else {
                    (after, RepositoryReply::Suggest)
                }
            },
        }
    }

    /// A key that goes to the field that has the focus.
    pub open spec fn typed(self, key: KeyEvent) -> RepositoryPickerView {
        match self.focus {
            RepositoryFocus::Alias => RepositoryPickerView { alias: self.alias.keyed(key), ..self },
            RepositoryFocus::LocalName => RepositoryPickerView {
                local_name: self.local_name.keyed(key),
                ..self
            },
            RepositoryFocus::SourceName => RepositoryPickerView {
                source_name: self.source_name.keyed(key),
                ..self
            },
            _ => self,
        }
    }

    pub open spec fn with_selected(self, selected: Option<usize>) -> RepositoryPickerView {
        RepositoryPickerView { list: ListNav { selected, ..self.list }, ..self }
    }

    /// What is chosen is to be installed: first the two names are saved.
    pub open spec fn confirmed(self, checks: Checks) -> (RepositoryPickerView, RepositoryReply) {
        if !checks.alias_ok {
            (
                self.with_focus(RepositoryFocus::Alias),
                RepositoryReply::Complain("invalid storage folder"@),
            )
        } else {
            let (after, outcome) = self.alias_saved().source_saved(checks);
            match outcome {
                Saved::Refused(error) => (after, RepositoryReply::Complain(error)),
                _ => after.searching(Some(Resume::Install)),
            }
        }
    }

    /// A key on the list.
    pub open spec fn list_keyed(self, key: KeyEvent, checks: Checks) -> (
        RepositoryPickerView,
        RepositoryReply,
    ) {
        let at = self.list.selected;
        let n = self.shown.len() as int;
        match key.code {
            KeyCode::Down => (self.with_selected(moved(at, 1, n)), RepositoryReply::Nothing),
            KeyCode::Up => (self.with_selected(moved(at, -1, n)), RepositoryReply::Nothing),
            KeyCode::PageDown => (
                self.with_selected(moved(at, self.list.rows.height as int, n)),
                RepositoryReply::Nothing,
            ),
            KeyCode::PageUp => (
                self.with_selected(moved(at, -(self.list.rows.height as int), n)),
                RepositoryReply::Nothing,
            ),
            KeyCode::Enter => self.confirmed(checks),
            KeyCode::Char(c) => if c == 'v' {
                (
                    RepositoryPickerView {
                        preview: if self.nameable() {
                            self.selected()
                        } else {
                            self.preview
                        },
                        ..self
                    },
                    RepositoryReply::Nothing,
                )
            } else if c == '/' {
                (self.with_focus(RepositoryFocus::Search), RepositoryReply::Nothing)
            } else if c == 'a' {
                (self.with_focus(RepositoryFocus::Alias), RepositoryReply::Nothing)
            } else if c == 'n' {
                (self.with_focus(RepositoryFocus::SourceName), RepositoryReply::Nothing)
            } else if c == 'e' {
                (self.naming(checks), RepositoryReply::Nothing)
            } else if c == ' ' {
                match self.selected() {
                    Some(path) => self.toggled(path),
                    None => (self, RepositoryReply::Nothing),
                }
            } else {
                (self, RepositoryReply::Nothing)
            },
            _ => (self, RepositoryReply::Nothing),
        }
    }

    /// What a key does.
    pub open spec fn keyed(self, pressed: KeyEvent, checks: Checks) -> (
        RepositoryPickerView,
        RepositoryReply,
    ) {
        let key = if self.focus == RepositoryFocus::List && pressed.code == KeyCode::Char('q')
            && pressed.modifiers == KeyModifiers::none() {
            KeyEvent { code: KeyCode::Esc, ..pressed }
        } else {
            pressed
        };
        let tab = key.code == KeyCode::Tab || key.code == KeyCode::BackTab;
        if self.preview is Some {
            if key.code == KeyCode::Esc {
                (RepositoryPickerView { preview: None, ..self }, RepositoryReply::Nothing)
            } else {
                (self, RepositoryReply::Forward)
            }
        } else if self.focus == RepositoryFocus::Search && !tab {
            self.search_keyed(key)
        } else if key.code == KeyCode::Esc {
            (self, RepositoryReply::Leave(self.selection.workdir))
        } else if tab {
            self.saved_then(Resume::Focus { backwards: key.code == KeyCode::BackTab }, checks)
        } else if self.focus == RepositoryFocus::List {
            self.list_keyed(key, checks)
        } else if key.code == KeyCode::Enter || key.code == KeyCode::Down {
            self.saved_then(Resume::List, checks)
        } else {
            (self.typed(key), RepositoryReply::Nothing)
        }
    }

    /// The field that has the focus, as far as it is one.
    pub open spec fn focused_field(self) -> Option<Rect> {
        match self.focus {
            RepositoryFocus::Alias => Some(self.alias_field),
            RepositoryFocus::Search => Some(self.search_field),
            RepositoryFocus::LocalName => Some(self.name_field),
            RepositoryFocus::SourceName => Some(self.source_field),
            RepositoryFocus::List => None,
        }
    }

    /// What the mouse does; the wheel moves by `wheel` rows.
    pub open spec fn moused(self, event: MouseEvent, wheel: int, checks: Checks) -> (
        RepositoryPickerView,
        RepositoryReply,
    ) {
        let x = event.column as int;
        let y = event.row as int;
        let n = self.shown.len() as int;
        if self.preview is Some {
            (self, RepositoryReply::Forward)
        } else if self.focus == RepositoryFocus::Search && self.suggestions is Some
            && self.suggestions->0.has(x, y) {
            (self, RepositoryReply::Forward)
        } else {
            match event.kind {
                MouseKind::ScrollDown => if self.list.rows.has(x, y) {
                    (
                        self.with_selected(moved(self.list.selected, wheel, n)),
                        RepositoryReply::Nothing,
                    )
                } else {
                    (self, RepositoryReply::Nothing)
                },
                MouseKind::ScrollUp => if self.list.rows.has(x, y) {
                    (
                        self.with_selected(moved(self.list.selected, -wheel, n)),
                        RepositoryReply::Nothing,
                    )
                } else {
                    (self, RepositoryReply::Nothing)
                },
                MouseKind::Down => if !self.rect.has(x, y) {
                    self.keyed(
                        KeyEvent { code: KeyCode::Esc, modifiers: KeyModifiers::none() },
                        checks,
                    )
                } else {
                    match self.focused_field() {
                        Some(field) => if field.has(x, y) {
                            self.pressed(event, checks)
                        } else {
                            self.saved_then(Resume::Press(event), checks)
                        },
                        None => self.pressed(event, checks),
                    }
                },
                _ => (self, RepositoryReply::Nothing),
            }
        }
    }

    /// What a paste does.
    pub open spec fn pasted(self, text: Seq<char>) -> (RepositoryPickerView, RepositoryReply) {
        if self.preview is Some || self.focus == RepositoryFocus::List {
            (self, RepositoryReply::Nothing)
        } else if is_multiline(text) {
            (self, RepositoryReply::Complain(paste_refused()))
        } else {
            match self.focus {
                RepositoryFocus::Alias => (
                    RepositoryPickerView { alias: self.alias.with_pasted(text), ..self },
                    RepositoryReply::Nothing,
                ),
                RepositoryFocus::LocalName => (
                    RepositoryPickerView {
                        local_name: self.local_name.with_pasted(text),
                        ..self
                    },
                    RepositoryReply::Nothing,
                ),
                RepositoryFocus::SourceName => (
                    RepositoryPickerView {
                        source_name: self.source_name.with_pasted(text),
                        ..self
                    },
                    RepositoryReply::Nothing,
                ),
                _ => {
                    let after = RepositoryPickerView {
                        search: self.search.with_pasted(text),
                        ..self
                    };
                    if text.len() > 0 {
                        after.searching(None)
                    } else {
                        (after, RepositoryReply::Nothing)
                    }
                },
            }
        }
    }

    /// The keys that the dialog tells of.
    pub open spec fn hint_list(self) -> Seq<Hint> {
        if self.focus == RepositoryFocus::Search && self.suggestions is Some {
            seq![
                ("↑↓", "suggestions"),
                ("Enter", "complete"),
                ("Enter", "list"),
                ("Esc", "close suggestions"),
            ]
        } else if self.focus == RepositoryFocus::List {
            seq![
                ("Space", "select"),
                ("v", "preview"),
                ("Enter", "install selected"),
                ("n", "source name"),
                ("a", "storage folder"),
                ("e", "skill name"),
                ("/", "filter"),
                ("Esc", "cancel"),
            ]
        } else {
            seq![
                ("type", "edit"),
                ("Enter/↓", "list"),
                ("Tab/⇧Tab", "fields"),
                ("Esc", "cancel"),
            ]
        }
    }
}

/// An archive has to be given a name.
pub open spec fn lacks_name(repository: RepositoryView) -> bool {
    repository.kind == SourceKind::Archive && match repository.name {
        Some(name) => trimmed(name).len() == 0,
        None => true,
    }
}

pub fn needs_source_name(fetched: &FetchedRepository) -> (r: bool)
    ensures
        r == lacks_name(fetched.repository@),
{
    fetched.repository.kind == SourceKind::Archive && match &fetched.repository.name {
        Some(name) => chars_of(trim(name.as_str()).as_str()).len() == 0,
        None => true,
    }
}

/// The dialog for a selection, before its candidates are searched.
pub open spec fn restored(selection: SelectionView) -> RepositoryPickerView {
    RepositoryPickerView {
        selection,
        source_name: if lacks_name(selection.repository) {
            empty_input()
        } else {
            input_with(selection.repository.display_name)
        },
        alias: input_with(selection.repository.alias),
        search: empty_input(),
        suggestions: None,
        local_name: empty_input(),
        focus: if lacks_name(selection.repository) {
            RepositoryFocus::SourceName
        } else {
            RepositoryFocus::Search
        },
        list: ListNav::empty(),
        shown: Seq::empty(),
        matching: Seq::empty(),
        preview: None,
        rect: Rect::zero(),
        alias_field: Rect::zero(),
        search_field: Rect::zero(),
        name_field: Rect::zero(),
        source_field: Rect::zero(),
    }
}

/// The dialog for a repository that was just fetched.
pub open spec fn opened(fetched: FetchedRepository) -> RepositoryPickerView {
    let fresh = restored(
        SelectionView {
            repository: fetched.repository@,
            revision: fetched.revision@,
            workdir: fetched.workdir@,
            choices: fetched.choices@,
            paths: Seq::empty(),
            names: Seq::empty(),
        },
    );
    if lacks_name(fetched.repository@) {
        fresh
    } else {
        fresh.with_focus(RepositoryFocus::List)
    }
}

impl RepositoryPicker {
    /// The dialog for a repository that was fetched. Its tree is shown once its candidates
    /// were searched.
    pub fn new(fetched: FetchedRepository) -> (r: RepositoryPicker)
        ensures
            r@ == opened(fetched),
            r@.valid(),
    {
        let needs = needs_source_name(&fetched);
        let selection = InstallSelection { fetched, paths: Vec::new(), names: Vec::new() };
        assert(selection@.paths =~= Seq::empty());
        assert(selection@.names =~= Seq::empty());
        let mut picker = RepositoryPicker::restore(selection);
        if !needs {
            picker.focus = RepositoryFocus::List;
        }
        picker
    }

    /// The dialog for a selection that was made before.
    pub fn restore(selection: InstallSelection) -> (r: RepositoryPicker)
        ensures
            r@ == restored(selection@),
            r@.valid(),
    {
        let needs = needs_source_name(&selection.fetched);
        let alias = Input::with_value(selection.fetched.repository.alias.as_str());
        let source_name = if needs {
            Input::empty()
        } else {
            Input::with_value(selection.fetched.repository.display_name.as_str())
        };
        let picker = RepositoryPicker {
            selection,
            source_name,
            alias,
            search: Input::empty(),
            suggestions: None,
            local_name: Input::empty(),
            focus: if needs {
                RepositoryFocus::SourceName
            } else {
                RepositoryFocus::Search
            },
            list: ListNav::empty(),
            shown: Vec::new(),
            matching: Vec::new(),
            preview: None,
            rect: Rect::zero(),
            alias_field: Rect::zero(),
            search_field: Rect::zero(),
            name_field: Rect::zero(),
            source_field: Rect::zero(),
        };
        assert(picker@.shown =~= Seq::empty());
        assert(picker@.matching =~= Seq::empty());
        picker
    }

    /// Takes the answer of the search: the paths that were found, and what paths have to
    /// begin with.
    pub fn found(&mut self, hits: &Vec<String>, prefixes: &Vec<String>)
        requires
            old(self)@.valid(),
        ensures
            final(self)@.valid(),
            ascending(final(self)@.matching),
            forall|p: Seq<char>| #[trigger]
                final(self)@.matching.contains(p) <==> is_match(texts(hits@), texts(prefixes@), p),
            shown_nodes(
                old(self)@.selection.choices,
                final(self)@.matching,
                final(self)@.shown,
            ),
            final(self)@ == (RepositoryPickerView {
                matching: final(self)@.matching,
                shown: final(self)@.shown,
                list: ListNav {
                    selected: clamped(old(self)@.list.selected, final(self)@.shown.len() as int),
                    ..old(self)@.list
                },
                ..old(self)@
            }),
    {
        self.matching = match_hits(hits, prefixes);
        self.shown = filter_tree(&self.selection.fetched.choices, &self.matching);
        self.list.clamp(self.shown.len());
    }

    pub fn matches_filter(&self, path: &str) -> (r: bool)
        ensures
            r == self@.passes(path@),
    {
        list_holds(&self.matching, path)
    }

    fn selected(&self) -> (r: Option<String>)
        ensures
            crate::text::said(r) == self@.selected(),
    {
        match self.list.selected {
            Some(i) => if i < self.shown.len() {
                Some(self.shown[i].clone())
            } else {
                None
            },
            None => None,
        }
    }

    fn is_blocked(&self, path: &str) -> (r: bool)
        ensures
            r == self@.blocked(path@),
    {
        let ghost paths = self@.selection.paths;
        let mut i: usize = 0;
        while i < self.selection.paths.len()
            invariant
                i <= self.selection.paths.len(),
                paths == texts(self.selection.paths@),
                forall|k: int|
                    0 <= k < i ==> !(self@.passes(#[trigger] paths[k]) && are_related(
                        paths[k],
                        path@,
                    )),
            decreases self.selection.paths.len() - i,
        {
            let chosen = self.selection.paths[i].as_str();
            assert(paths[i as int] == chosen@);
            if self.matches_filter(chosen) && related(chosen, path) {
                assert(self@.selection.paths[i as int] == chosen@);
                return true;
            }
            i = i + 1;
        }
        false
    }

    /// Why a skill cannot be chosen.
    pub fn disabled(&self, path: &str) -> (r: Option<String>)
        ensures
            crate::text::said(r) == self@.disabled(path@),
    {
        let at = find_choice(&self.selection.fetched.choices, path);
        match at {
            Some(i) => match &self.selection.fetched.choices[i].invalid {
                Some(error) => {
                    return Some(cat2("invalid: ", error.as_str()));
                },
                None => {},
            },
            None => {},
        }
        if !self.matches_filter(path) {
            return Some("outside current filter".to_owned());
        }
        if self.is_blocked(path) {
            return Some("ancestor or descendant selected".to_owned());
        }
        match at {
            Some(i) => {
                if self.selection.fetched.choices[i].installed {
                    return Some("already installed".to_owned());
                }
            },
            None => {},
        }
        None
    }

    /// A skill that was installed before and whose files are gone.
    pub fn restores_missing(&self, path: &str) -> (r: bool)
        ensures
            r == match choice_at(self@.selection.choices, path@) {
                Some(i) => self@.selection.choices[i].missing,
                None => false,
            },
    {
        match find_choice(&self.selection.fetched.choices, path) {
            Some(i) => self.selection.fetched.choices[i].missing,
            None => false,
        }
    }

    /// Chooses a skill, or gives it up.
    pub fn toggle(&mut self, path: &str) -> (r: Vec<Action>)
        requires
            old(self)@.valid(),
        ensures
            final(self)@ == old(self)@.toggled(path@).0,
            old(self)@.toggled(path@).1.told(r@),
            final(self)@.valid(),
    {
        if find_choice(&self.selection.fetched.choices, path).is_none() {
            return nothing();
        }
        if list_holds(&self.selection.paths, path) {
            self.selection.paths = take_others(&self.selection.paths, path);
            return nothing();
        }
        match self.disabled(path) {
            Some(reason) => complain(reason.as_str()),
            None => {
                // What is chosen but filtered out does not block this choice. It is given
                // up, so that both are not chosen once the filter is cleared.
                let mut paths = take_unrelated(&self.selection.paths, path);
                let added = path.to_owned();
                assert(texts(paths@.push(added)) =~= texts(paths@).push(path@));
                paths.push(added);
                self.selection.paths = paths;
                nothing()
            },
        }
    }

    fn save_source_name(&mut self, checks: &Checks) -> (r: Option<Vec<Action>>)
        requires
            old(self)@.valid(),
        ensures
            final(self)@ == old(self)@.source_saved(*checks).0,
            match old(self)@.source_saved(*checks).1 {
                Saved::Refused(error) => r is Some && complains((r->0)@, error),
                _ => r is None,
            },
            final(self)@.valid(),
    {
        match &checks.source_name {
            Err(error) => {
                self.focus = RepositoryFocus::SourceName;
                Some(complain(error.as_str()))
            },
            Ok(source) => {
                self.selection.fetched.repository.name = clone_optional(&source.name);
                self.selection.fetched.repository.display_name = source.display_name.clone();
                None
            },
        }
    }

    fn search_then(&self, wait: Option<Resume>) -> (r: Vec<Action>)
        ensures
            (RepositoryReply::Search { query: self@.search.text, wait }).told(r@),
    {
        let search = Action::SearchCandidates(self.search.value());
        match wait {
            Some(step) => both(search, Action::ResumeRepository(step)),
            None => only(search),
        }
    }

    /// Whether the selected node is a skill.
    fn is_nameable(&self) -> (r: bool)
        ensures
            r == self@.nameable(),
    {
        match self.selected() {
            Some(path) => find_choice(&self.selection.fetched.choices, path.as_str()).is_some(),
            None => false,
        }
    }

    fn focus_local_name(&mut self, checks: &Checks)
        requires
            old(self)@.valid(),
        ensures
            final(self)@ == old(self)@.naming(*checks),
            final(self)@.valid(),
    {
        if self.is_nameable() {
            self.local_name = Input::with_value(checks.local_name.as_str());
            self.focus = RepositoryFocus::LocalName;
        }
    }

    fn move_focus(&mut self, backwards: bool, checks: &Checks)
        requires
            old(self)@.valid(),
        ensures
            final(self)@ == old(self)@.refocused(backwards, *checks),
            final(self)@.valid(),
    {
        let to = self.focus.neighbour(backwards);
        if to == RepositoryFocus::LocalName {
            if self.is_nameable() {
                self.focus_local_name(checks);
            } else if backwards {
                self.focus = RepositoryFocus::List;
            } else {
                self.focus = RepositoryFocus::SourceName;
            }
        } else {
            self.focus = to;
        }
        self.suggestions = None;
    }

    /// Asks for the names of what is to be installed.
    pub fn install(&self) -> (r: Vec<Action>)
        ensures
            self@.installing().told(r@),
    {
        let paths = take_among(&self.selection.paths, &self.matching);
        if paths.len() == 0 {
            return complain("select at least one skill in the current filter");
        }
        let mut selection = self.selection.clone();
        selection.paths = paths;
        only(Action::ResolveNames(Box::new(selection)))
    }

    fn press(&mut self, event: MouseEvent, checks: &Checks) -> (r: Vec<Action>)
        requires
            old(self)@.valid(),
        ensures
            final(self)@ == old(self)@.pressed(event, *checks).0,
            old(self)@.pressed(event, *checks).1.told(r@),
            final(self)@.valid(),
    {
        let (x, y): (u16, u16) = (event.column, event.row);
        if self.name_field.contains(x, y) {
            if self.focus != RepositoryFocus::LocalName {
                self.focus_local_name(checks);
            }
            self.local_name.click(x);
            return nothing();
        }
        if self.alias_field.contains(x, y) {
            self.focus = RepositoryFocus::Alias;
            self.alias.click(x);
            return nothing();
        }
        if self.search_field.contains(x, y) {
            self.focus = RepositoryFocus::Search;
            self.search.click(x);
            return only(Action::SuggestCandidates);
        }
        if self.source_field.contains(x, y) {
            self.focus = RepositoryFocus::SourceName;
            self.source_name.click(x);
            return nothing();
        }
        if self.list.rows.contains(x, y) {
            match self.list.click(y, self.shown.len(), event.repeated) {
                Some((at, _)) => {
                    self.focus = RepositoryFocus::List;
                    let path = self.shown[at].clone();
                    return self.toggle(path.as_str());
                },
                None => {},
            }
        }
        nothing()
    }

    /// Goes on with what waited for a search.
    pub fn resume(&mut self, step: Resume, checks: &Checks) -> (r: Vec<Action>)
        requires
            old(self)@.valid(),
        ensures
            final(self)@ == old(self)@.resumed(step, *checks).0,
            old(self)@.resumed(step, *checks).1.told(r@),
            final(self)@.valid(),
    {
        match step {
            Resume::Focus { backwards } => {
                self.move_focus(backwards, checks);
                nothing()
            },
            Resume::List => {
                self.focus = RepositoryFocus::List;
                self.suggestions = None;
                nothing()
            },
            Resume::Install => self.install(),
            Resume::Press(event) => self.press(event, checks),
        }
    }

    /// Saves the field that has the focus, and then does something else.
    fn save_then(&mut self, step: Resume, checks: &Checks) -> (r: Vec<Action>)
        requires
            old(self)@.valid(),
        ensures
            final(self)@ == old(self)@.saved_then(step, *checks).0,
            old(self)@.saved_then(step, *checks).1.told(r@),
            final(self)@.valid(),
    {
        match self.focus {
            RepositoryFocus::Alias => {
                if !checks.alias_ok {
                    return complain("invalid storage folder");
                }
                self.selection.fetched.repository.alias = trim(self.alias.value().as_str());
                self.resume(step, checks)
            },
            RepositoryFocus::LocalName => {
                match self.selected() {
                    Some(path) => {
                        if !checks.name_ok {
                            return complain("invalid local skill name");
                        }
                        let name = trim(self.local_name.value().as_str());
                        set_name(&mut self.selection.names, path.as_str(), name);
                    },
                    None => {},
                }
                self.resume(step, checks)
            },
            RepositoryFocus::SourceName => match self.save_source_name(checks) {
                Some(actions) => actions,
                None => self.search_then(Some(step)),
            },
            _ => self.resume(step, checks),
        }
    }

    /// Installs what is chosen, once the two names are saved.
    fn confirm(&mut self, checks: &Checks) -> (r: Vec<Action>)
        requires
            old(self)@.valid(),
        ensures
            final(self)@ == old(self)@.confirmed(*checks).0,
            old(self)@.confirmed(*checks).1.told(r@),
            final(self)@.valid(),
    {
        if !checks.alias_ok {
            self.focus = RepositoryFocus::Alias;
            return complain("invalid storage folder");
        }
        self.selection.fetched.repository.alias = trim(self.alias.value().as_str());
        match self.save_source_name(checks) {
            Some(actions) => actions,
            None => self.search_then(Some(Resume::Install)),
        }
    }

    fn search_key(&mut self, key: KeyEvent) -> (r: Vec<Action>)
        requires
            old(self)@.valid(),
        ensures
            final(self)@ == old(self)@.search_keyed(key).0,
            old(self)@.search_keyed(key).1.told(r@),
            final(self)@.valid(),
    {
        let open = self.suggestions.is_some();
        match key.code {
            KeyCode::Esc => {
                if open {
                    self.suggestions = None;
                } else {
                    self.focus = RepositoryFocus::List;
                }
                nothing()
            },
            KeyCode::Enter | KeyCode::Down => {
                if open {
                    return only(Action::Forward);
                }
                self.focus = RepositoryFocus::List;
                nothing()
            },
            KeyCode::Up => {
                if open {
                    return only(Action::Forward);
                }
                only(Action::SuggestCandidates)
            },
            _ => {
                if self.search.handle_key(key) {
                    self.search_then(None)
                } else {
                    only(Action::SuggestCandidates)
                }
            },
        }
    }

    fn list_key(&mut self, key: KeyEvent, checks: &Checks) -> (r: Vec<Action>)
        requires
            old(self)@.valid(),
        ensures
            final(self)@ == old(self)@.list_keyed(key, *checks).0,
            old(self)@.list_keyed(key, *checks).1.told(r@),
            final(self)@.valid(),
    {
        let rows = self.shown.len();
        let page: i32 = self.list.rows.height as i32;
        match key.code {
            KeyCode::Down => self.list.move_by(1, rows),
            KeyCode::Up => self.list.move_by(-1, rows),
            KeyCode::PageDown => self.list.move_by(page, rows),
            KeyCode::PageUp => self.list.move_by(-page, rows),
            KeyCode::Enter => {
                return self.confirm(checks);
            },
            KeyCode::Char(c) => {
                if c == 'v' {
                    if self.is_nameable() {
                        self.preview = self.selected();
                    }
                } else if c == '/' {
                    self.focus = RepositoryFocus::Search;
                } else if c == 'a' {
                    self.focus = RepositoryFocus::Alias;
                } else if c == 'n' {
                    self.focus = RepositoryFocus::SourceName;
                } else if c == 'e' {
                    self.focus_local_name(checks);
                } else if c == ' ' {
                    match self.selected() {
                        Some(path) => {
                            return self.toggle(path.as_str());
                        },
                        None => {},
                    }
                }
            },
            _ => {},
        }
        nothing()
    }

    pub fn key(&mut self, pressed: KeyEvent, checks: &Checks) -> (r: Vec<Action>)
        requires
            old(self)@.valid(),
        ensures
            final(self)@ == old(self)@.keyed(pressed, *checks).0,
            old(self)@.keyed(pressed, *checks).1.told(r@),
            final(self)@.valid(),
    {
        let key = if self.focus == RepositoryFocus::List && pressed.code == KeyCode::Char('q')
            && pressed.modifiers == KeyModifiers::none() {
            KeyEvent { code: KeyCode::Esc, modifiers: pressed.modifiers }
        } else {
            pressed
        };
        let tab = key.code == KeyCode::Tab || key.code == KeyCode::BackTab;
        if self.preview.is_some() {
            if key.code == KeyCode::Esc {
                self.preview = None;
                return nothing();
            }
            return only(Action::Forward);
        }
        if self.focus == RepositoryFocus::Search && !tab {
            return self.search_key(key);
        }
        if key.code == KeyCode::Esc {
            return both(
                Action::DiscardFetched(self.selection.fetched.workdir.clone()),
                Action::CloseModal,
            );
        }
        if tab {
            return self.save_then(
                Resume::Focus { backwards: key.code == KeyCode::BackTab },
                checks,
            );
        }
        if self.focus == RepositoryFocus::List {
            return self.list_key(key, checks);
        }
        if key.code == KeyCode::Enter || key.code == KeyCode::Down {
            return self.save_then(Resume::List, checks);
        }
        match self.focus {
            RepositoryFocus::Alias => {
                self.alias.handle_key(key);
            },
            RepositoryFocus::LocalName => {
                self.local_name.handle_key(key);
            },
            RepositoryFocus::SourceName => {
                self.source_name.handle_key(key);
            },
            _ => {},
        }
        nothing()
    }

    pub fn mouse(&mut self, event: MouseEvent, wheel: u16, checks: &Checks) -> (r: Vec<Action>)
        requires
            old(self)@.valid(),
        ensures
            final(self)@ == old(self)@.moused(event, wheel as int, *checks).0,
            old(self)@.moused(event, wheel as int, *checks).1.told(r@),
            final(self)@.valid(),
    {
        let (x, y): (u16, u16) = (event.column, event.row);
        if self.preview.is_some() {
            return only(Action::Forward);
        }
        if self.focus == RepositoryFocus::Search {
            match self.suggestions {
                Some(rect) => {
                    if rect.contains(x, y) {
                        return only(Action::Forward);
                    }
                },
                None => {},
            }
        }
        let rows = self.shown.len();
        match event.kind {
            MouseKind::ScrollDown => {
                if self.list.rows.contains(x, y) {
                    self.list.move_by(wheel as i32, rows);
                }
                nothing()
            },
            MouseKind::ScrollUp => {
                if self.list.rows.contains(x, y) {
                    self.list.move_by(-(wheel as i32), rows);
                }
                nothing()
            },
            MouseKind::Down => {
                if !self.rect.contains(x, y) {
                    return self.key(
                        KeyEvent { code: KeyCode::Esc, modifiers: KeyModifiers::none() },
                        checks,
                    );
                }
                let field = match self.focus {
                    RepositoryFocus::Alias => self.alias_field,
                    RepositoryFocus::Search => self.search_field,
                    RepositoryFocus::LocalName => self.name_field,
                    RepositoryFocus::SourceName => self.source_field,
                    RepositoryFocus::List => {
                        return self.press(event, checks);
                    },
                };
                if field.contains(x, y) {
                    self.press(event, checks)
                } else {
                    self.save_then(Resume::Press(event), checks)
                }
            },
            _ => nothing(),
        }
    }

    pub fn paste(&mut self, text: &str) -> (r: Vec<Action>)
        requires
            old(self)@.valid(),
        ensures
            final(self)@ == old(self)@.pasted(text@).0,
            old(self)@.pasted(text@).1.told(r@),
            final(self)@.valid(),
    {
        if self.preview.is_some() {
            return nothing();
        }
        let result = match self.focus {
            RepositoryFocus::Alias => self.alias.paste(text),
            RepositoryFocus::Search => self.search.paste(text),
            RepositoryFocus::LocalName => self.local_name.paste(text),
            RepositoryFocus::SourceName => self.source_name.paste(text),
            RepositoryFocus::List => {
                return nothing();
            },
        };
        match result {
            Ok(changed) => if changed && self.focus == RepositoryFocus::Search {
                self.search_then(None)
            } else {
                nothing()
            },
            Err(why) => complain(why),
        }
    }

    /// Takes a suggestion for the search.
    pub fn accept(&mut self, query: &str) -> (r: Vec<Action>)
        requires
            old(self)@.valid(),
        ensures
            final(self)@ == (RepositoryPickerView { search: input_with(query@), ..old(self)@ }),
            (RepositoryReply::Search { query: query@, wait: None }).told(r@),
            final(self)@.valid(),
    {
        self.search = Input::with_value(query);
        self.search_then(None)
    }

    /// The library was read again: the search is made once more.
    pub fn refresh(&self) -> (r: Vec<Action>)
        ensures
            r@.len() == 2,
            r@[0] matches Action::SearchCandidates(text) && text@ == self@.search.text,
            r@[1] == Action::SuggestCandidates,
    {
        both(Action::SearchCandidates(self.search.value()), Action::SuggestCandidates)
    }

    pub fn hints(&self) -> (r: Vec<Hint>)
        ensures
            r@ == self@.hint_list(),
    {
        if self.focus == RepositoryFocus::Search && self.suggestions.is_some() {
            return vec![
                ("↑↓", "suggestions"),
                ("Enter", "complete"),
                ("Enter", "list"),
                ("Esc", "close suggestions"),
            ];
        }
        if self.focus == RepositoryFocus::List {
            vec![
                ("Space", "select"),
                ("v", "preview"),
                ("Enter", "install selected"),
                ("n", "source name"),
                ("a", "storage folder"),
                ("e", "skill name"),
                ("/", "filter"),
                ("Esc", "cancel"),
            ]
        } else {
            vec![
                ("type", "edit"),
                ("Enter/↓", "list"),
                ("Tab/⇧Tab", "fields"),
                ("Esc", "cancel"),
            ]
        }
    }
}

/// What is done once the names of what is installed are settled.
pub fn names_resolved(
    selection: Box<InstallSelection>,
    result: Result<Vec<NamedPath>, String>,
) -> (r: Vec<Action>)
    ensures
        match result {
            Ok(names) => {
                &&& r@.len() == 2
                &&& r@[0] == Action::CloseModal
                &&& (r@[1] matches Action::Spawn(Task::InstallRepository(chosen)) && chosen@ == (
                SelectionView { names: names_view(names@), ..selection@ }))
            },
            Err(error) => complains(r@, error@),
        },
{
    match result {
        Ok(names) => {
            let mut selection = *selection;
            selection.names = names;
            both(
                Action::CloseModal,
                Action::Spawn(Task::InstallRepository(Box::new(selection))),
            )
        },
        Err(error) => complain(error.as_str()),
    }
}

// ---- names -------------------------------------------------------------------

/// The alias of the repository that a skill belongs to, by its key.
pub open spec fn alias_in(key: Seq<char>) -> Option<Seq<char>> {
    let parts = pieces(key, "/"@);
    if parts.len() >= 3 && parts[0] == "repos"@ {
        Some(parts[1])
    } else {
        None
    }
}

pub fn alias_of(key: &str) -> (r: Option<String>)
    ensures
        crate::text::said(r) == alias_in(key@),
{
    proof {
        reveal_strlit("/");
    }
    let parts = split(key, "/");
    assert(texts(parts@).len() == parts@.len());
    if parts.len() >= 3 && same_text(parts[0].as_str(), "repos") {
        assert(texts(parts@)[1] == parts@[1]@);
        assert(texts(parts@)[0] == parts@[0]@);
        Some(parts[1].clone())
    } else {
        assert(parts@.len() >= 3 ==> texts(parts@)[0] == parts@[0]@);
        None
    }
}

/// The names that the repository's installed skills have.
pub open spec fn taken_names(skills: Seq<SkillRecord>, alias: Seq<char>) -> Seq<Seq<char>>
    decreases skills.len(),
{
    if skills.len() == 0 {
        Seq::empty()
    } else if alias_in(skills.last().key@) == Some(alias) {
        taken_names(skills.drop_last(), alias).push(after_last(skills.last().key@, '/'))
    } else {
        taken_names(skills.drop_last(), alias)
    }
}

impl RepositoryPicker {
    /// The paths that names are settled for, where a name for `path` is asked: those that
    /// are chosen and not filtered out, and this one.
    pub fn paths_with(&self, path: &str) -> (r: Vec<String>)
        ensures
            texts(r@) == ({
                let chosen = among(self@.selection.paths, self@.matching);
                if chosen.contains(path@) {
                    chosen
                } else {
                    chosen.push(path@)
                }
            }),
    {
        let mut paths = take_among(&self.selection.paths, &self.matching);
        if !list_holds(&paths, path) {
            let added = path.to_owned();
            assert(texts(paths@.push(added)) =~= texts(paths@).push(path@));
            paths.push(added);
        }
        paths
    }

    /// The names that are taken already.
    pub fn occupied(&self, snap: &Snapshot) -> (r: Vec<String>)
        ensures
            texts(r@) == taken_names(snap.skills@, self@.selection.repository.alias),
    {
        let mut out: Vec<String> = Vec::new();
        let mut i: usize = 0;
        assert(snap.skills@.take(0) =~= Seq::empty());
        assert(texts(out@) =~= Seq::empty());
        let ghost alias = self@.selection.repository.alias;
        while i < snap.skills.len()
            invariant
                i <= snap.skills.len(),
                alias == self.selection.fetched.repository.alias@,
                texts(out@) == taken_names(snap.skills@.take(i as int), alias),
            decreases snap.skills.len() - i,
        {
            assert(snap.skills@.take(i + 1).drop_last() =~= snap.skills@.take(i as int));
            let key = snap.skills[i].key.as_str();
            let belongs = match alias_of(key) {
                Some(alias) => same_text(
                    alias.as_str(),
                    self.selection.fetched.repository.alias.as_str(),
                ),
                None => false,
            };
            if belongs {
                let name = tail_after(key, '/');
                assert(texts(out@.push(name)) =~= texts(out@).push(name@));
                out.push(name);
            }
            i = i + 1;
        }
        assert(snap.skills@.take(i as int) =~= snap.skills@);
        out
    }

    /// The name that a skill gets: as settled, as chosen, or its own.
    pub fn resolved_name(&self, path: &str, settled: &Option<Vec<NamedPath>>) -> (r: Option<String>)
        ensures
            crate::text::said(r) == ({
                let first = match *settled {
                    Some(names) => name_for(names_view(names@), path@),
                    None => None,
                };
                let chosen = name_for(self@.selection.names, path@);
                if first is Some {
                    first
                } else if chosen is Some {
                    chosen
                } else {
                    match choice_at(self@.selection.choices, path@) {
                        Some(i) => Some(self@.selection.choices[i].local_name@),
                        None => None,
                    }
                }
            }),
    {
        match settled {
            Some(names) => match find_name(names, path) {
                Some(i) => {
                    assert(names_view(names@)[i as int].1 == names@[i as int].name@);
                    return Some(names[i].name.clone());
                },
                None => {},
            },
            None => {},
        }
        match find_name(&self.selection.names, path) {
            Some(i) => {
                assert(names_view(self.selection.names@)[i as int].1
                    == self.selection.names@[i as int].name@);
                return Some(self.selection.names[i].name.clone());
            },
            None => {},
        }
        match find_choice(&self.selection.fetched.choices, path) {
            Some(i) => Some(self.selection.fetched.choices[i].local_name.clone()),
            None => None,
        }
    }
}

/// The record of a skill that was fetched and is not installed: it has nothing of its own
/// but what its file says.
pub fn candidate_record(
    choice: &Candidate,
    description: Option<String>,
    source: Source,
    source_name: &str,
) -> (r: SkillRecord)
    ensures
        r.key == choice.path,
        r.name == choice.name,
        r.description == description,
        match choice.invalid {
            Some(error) => r.status matches SkillStatus::Invalid { reason } && reason == error,
            None => r.status is Repository,
        },
        r.tags@.len() == 0,
        r.presets@.len() == 0,
        r.note is None,
        r.source == Some(source),
        r.source_name is Some && (r.source_name->0)@ == source_name@,
        !r.has_meta,
        r.deployed@.len() == 0,
{
    SkillRecord {
        key: choice.path.clone(),
        name: clone_optional(&choice.name),
        description,
        status: match &choice.invalid {
            Some(error) => SkillStatus::Invalid { reason: error.clone() },
            None => SkillStatus::Repository,
        },
        tags: Vec::new(),
        presets: Vec::new(),
        note: None,
        source: Some(source),
        source_name: Some(source_name.to_owned()),
        has_meta: false,
        deployed: Vec::new(),
    }
}

// ---- drawing -----------------------------------------------------------------

/// The dialog in the middle of an area.
pub open spec fn dialog_in(area: Rect) -> Rect {
    let w = spec_min(monus(area.width as int, 4), 110);
    let h = spec_min(monus(area.height as int, 4), 32);
    Rect::at(area.x + (area.width - w) / 2, area.y + (area.height - h) / 2, w, h)
}

fn place_dialog(area: Rect) -> (r: Rect)
    requires
        area.in_range(),
    ensures
        r == dialog_in(area),
        r.in_range(),
{
    let w: u16 = crate::geometry::min16(area.width.saturating_sub(4), 110);
    let h: u16 = crate::geometry::min16(area.height.saturating_sub(4), 32);
    Rect::new(area.x + (area.width - w) / 2, area.y + (area.height - h) / 2, w, h)
}

/// The columns of the labels in front of the fields.
pub open spec fn label_width(inner: Rect) -> int {
    spec_min(
        if inner.width < 56 {
            16
        } else {
            24
        },
        inner.width as int,
    )
}

pub open spec fn label_in(inner: Rect, y: int) -> Rect {
    Rect::at(inner.x as int, y, label_width(inner), 1)
}

pub open spec fn field_in(inner: Rect, y: int) -> Rect {
    Rect::at(inner.x + label_width(inner), y, inner.width - label_width(inner), 1)
}

fn label_rects(inner: Rect, y: u16) -> (r: (Rect, Rect))
    requires
        inner.in_range(),
    ensures
        r.0 == label_in(inner, y as int),
        r.1 == field_in(inner, y as int),
{
    let wide: u16 = if inner.width < 56 {
        16
    } else {
        24
    };
    let label: u16 = crate::geometry::min16(wide, inner.width);
    (
        Rect::new(inner.x, y, label, 1),
        Rect::new(inner.x + label, y, inner.width - label, 1),
    )
}

pub open spec fn search_in(inner: Rect) -> Rect {
    Rect::at(inner.x as int, inner.y + 2, inner.width as int, 1)
}

pub open spec fn results_in(inner: Rect) -> Rect {
    Rect::at(inner.x as int, inner.y + 4, inner.width as int, monus(inner.height as int, 5))
}

/// How deep a path is.
pub open spec fn slashes(path: Seq<char>) -> int
    decreases path.len(),
{
    if path.len() == 0 {
        0
    } else {
        slashes(path.drop_last()) + if path.last() == '/' {
            1int
        } else {
            0int
        }
    }
}

proof fn lemma_slashes(path: Seq<char>)
    ensures
        slashes(path) >= 0,
    decreases path.len(),
{
    if path.len() > 0 {
        lemma_slashes(path.drop_last());
    }
}

/// The blanks in front of a node: two for each directory above it.
pub open spec fn indent_of(path: Seq<char>, root: bool) -> Seq<char> {
    crate::text::repeated(
        ' ',
        if path.len() == 0 {
            0
        } else if root {
            2 * slashes(path) + 2
        } else {
            2 * slashes(path)
        },
    )
}

fn indent(path: &str, root: bool) -> (r: String)
    ensures
        r@ == indent_of(path@, root),
{
    let chars = chars_of(path);
    let mut out = String::new();
    proof {
        reveal_strlit("  ");
        assert(path@.take(0) =~= Seq::empty());
    }
    assert(out@ =~= crate::text::repeated(' ', 0));
    let mut i: usize = 0;
    while i < chars.len()
        invariant
            i <= chars.len(),
            chars@ == path@,
            "  "@ =~= seq![' ', ' '],
            out@ == crate::text::repeated(' ', 2 * slashes(path@.take(i as int))),
        decreases chars.len() - i,
    {
        proof {
            lemma_slashes(path@.take(i as int));
            assert(path@.take(i + 1).drop_last() =~= path@.take(i as int));
        }
        if chars[i] == '/' {
            let ghost before = out@;
            out.append("  ");
            assert(out@ =~= crate::text::repeated(' ', 2 * slashes(path@.take(i + 1))));
        }
        i = i + 1;
    }
    proof {
        assert(path@.take(i as int) =~= path@);
        lemma_slashes(path@);
    }
    if chars.len() == 0 {
        assert(out@ =~= crate::text::repeated(' ', 0));
    } else if root {
        out.append("  ");
        assert(out@ =~= crate::text::repeated(' ', 2 * slashes(path@) + 2));
    }
    out
}

pub open spec fn has_root(choices: Seq<Candidate>) -> bool {
    exists|i: int| 0 <= i < choices.len() && (#[trigger] choices[i]).path@.len() == 0
}

fn offers_root(choices: &Vec<Candidate>) -> (r: bool)
    ensures
        r == has_root(choices@),
{
    let mut i: usize = 0;
    while i < choices.len()
        invariant
            i <= choices.len(),
            forall|k: int| 0 <= k < i ==> (#[trigger] choices@[k]).path@.len() > 0,
        decreases choices.len() - i,
    {
        if chars_of(choices[i].path.as_str()).len() == 0 {
            return true;
        }
        i = i + 1;
    }
    false
}

impl RepositoryPickerView {
    pub open spec fn is_skill(self, path: Seq<char>) -> bool {
        choice_at(self.selection.choices, path) is Some && self.passes(path)
    }

    pub open spec fn is_chosen(self, path: Seq<char>) -> bool {
        self.is_skill(path) && self.selection.paths.contains(path)
    }

    /// Why a row cannot be chosen, where it could be one.
    pub open spec fn row_reason(self, path: Seq<char>) -> Option<Seq<char>> {
        if self.is_skill(path) && !self.is_chosen(path) {
            self.disabled(path)
        } else {
            None
        }
    }

    pub open spec fn row_mark(self, path: Seq<char>) -> Seq<char> {
        if !self.is_skill(path) {
            "    "@
        } else if self.is_chosen(path) {
            "[x] "@
        } else if self.row_reason(path) is Some {
            "[-] "@
        } else {
            "[ ] "@
        }
    }

    pub open spec fn row_label(self, path: Seq<char>) -> Seq<char> {
        match choice_at(self.selection.choices, path) {
            Some(i) => match self.selection.choices[i].name {
                Some(name) => name@,
                None => self.own_label(path),
            },
            None => self.own_label(path),
        }
    }

    pub open spec fn own_label(self, path: Seq<char>) -> Seq<char> {
        if path.len() == 0 {
            ". (source root)"@
        } else {
            after_last(path, '/')
        }
    }

    pub open spec fn restores(self, path: Seq<char>) -> bool {
        match choice_at(self.selection.choices, path) {
            Some(i) => self.selection.choices[i].missing,
            None => false,
        }
    }

    pub open spec fn row_suffix(self, path: Seq<char>) -> Seq<char> {
        match self.row_reason(path) {
            Some(reason) => "  ("@ + reason + ")"@,
            None => if self.is_skill(path) && self.restores(path) {
                "  (missing locally — restore)"@
            } else {
                ""@
            },
        }
    }

    pub open spec fn is_invalid(self, path: Seq<char>) -> bool {
        match choice_at(self.selection.choices, path) {
            Some(i) => self.selection.choices[i].invalid is Some,
            None => false,
        }
    }

    pub open spec fn row_style(self, path: Seq<char>, theme: Theme) -> Style {
        if self.is_invalid(path) {
            theme.err()
        } else if !self.is_skill(path) || self.row_reason(path) is Some || self.restores(path) {
            theme.dim()
        } else {
            theme.bold()
        }
    }

    /// A node of the tree as a row.
    pub open spec fn row(self, path: Seq<char>, width: int, theme: Theme) -> Seq<SpanView> {
        seq![
            run(
                fitted(
                    indent_of(path, has_root(self.selection.choices)) + self.row_mark(path)
                        + self.row_label(path) + self.row_suffix(path),
                    monus(width, 2),
                ),
                self.row_style(path, theme),
            ),
        ]
    }

    pub open spec fn rows(self, width: int, theme: Theme) -> Seq<Seq<SpanView>> {
        self.shown.map_values(|path: Seq<char>| self.row(path, width, theme))
    }

    pub open spec fn title(self) -> Seq<char> {
        let inside = among(self.selection.paths, self.matching).len() as int;
        " install · "@ + numeral(inside) + " selected to install · "@ + numeral(
            self.selection.paths.len() - inside,
        ) + " outside filter (excluded) "@
    }

    pub open spec fn source_label(self, inner: Rect) -> Seq<char> {
        if self.selection.repository.kind == SourceKind::Archive {
            if inner.width < 56 {
                "Package name *"@
            } else {
                "Package name (required)"@
            }
        } else {
            "Source name"@
        }
    }

    /// The list once it is drawn.
    pub open spec fn list_at(self, inner: Rect) -> ListNav {
        ListNav { rows: results_in(inner), ..self.list }.drawn(self.shown.len() as int)
    }

    /// The dialog once it is drawn: where everything is.
    pub open spec fn placed(self, area: Rect) -> RepositoryPickerView {
        let rect = dialog_in(area);
        let inner = rect.inside();
        if inner.height < 6 {
            RepositoryPickerView {
                rect,
                alias_field: Rect::zero(),
                search_field: Rect::zero(),
                name_field: Rect::zero(),
                source_field: Rect::zero(),
                list: ListNav { rows: Rect::zero(), ..self.list },
                ..self
            }
        } else {
            let source_field = field_in(inner, inner.y as int);
            let alias_field = field_in(inner, inner.y + 1);
            let name_field = field_in(inner, inner.end_y() - 1);
            RepositoryPickerView {
                rect,
                alias_field,
                search_field: search_in(inner),
                name_field,
                source_field,
                source_name: InputView { field: source_field, ..self.source_name },
                alias: InputView { field: alias_field, ..self.alias },
                search: InputView { field: search_in(inner), ..self.search },
                local_name: InputView { field: name_field, ..self.local_name },
                list: self.list_at(inner),
                ..self
            }
        }
    }

    pub open spec fn label_scene(self, inner: Rect, theme: Theme) -> Seq<DrawView> {
        seq![
            shown(
                label_in(inner, inner.y as int),
                seq![seq![run(self.source_label(inner), theme.dim())]],
                Style::plain(),
            ),
            shown(
                label_in(inner, inner.y + 1),
                seq![seq![run("Storage folder"@, theme.dim())]],
                Style::plain(),
            ),
            shown(
                label_in(inner, inner.end_y() - 1),
                seq![seq![run("Local skill name"@, theme.dim())]],
                Style::plain(),
            ),
        ]
    }

    pub open spec fn field_scene(self, inner: Rect) -> Seq<DrawView> {
        seq![
            DrawView::Field {
                rect: field_in(inner, inner.y as int),
                value: self.source_name.text,
                cursor: self.source_name.cursor as usize,
                focused: self.focus == RepositoryFocus::SourceName,
                placeholder: if self.selection.repository.kind == SourceKind::Archive {
                    "required · e.g. merlin"@
                } else {
                    "owner/repository"@
                },
            },
            DrawView::Field {
                rect: field_in(inner, inner.y + 1),
                value: self.alias.text,
                cursor: self.alias.cursor as usize,
                focused: self.focus == RepositoryFocus::Alias,
                placeholder: ""@,
            },
        ]
    }

    /// The name of the selected node: as it is edited, or as it would be.
    pub open spec fn name_scene(self, inner: Rect, local_name: Seq<char>) -> Seq<DrawView> {
        let field = field_in(inner, inner.end_y() - 1);
        if self.focus == RepositoryFocus::LocalName {
            seq![
                DrawView::Field {
                    rect: field,
                    value: self.local_name.text,
                    cursor: self.local_name.cursor as usize,
                    focused: true,
                    placeholder: ""@,
                },
            ]
        } else if self.selected() is Some {
            seq![
                shown(
                    field,
                    seq![seq![plain_run(fitted(local_name, field.width as int))]],
                    Style::plain(),
                ),
            ]
        } else {
            Seq::empty()
        }
    }

    pub open spec fn tree_scene(self, inner: Rect, theme: Theme) -> Seq<DrawView> {
        seq![
            DrawView::Field {
                rect: search_in(inner),
                value: self.search.text,
                cursor: self.search.cursor as usize,
                focused: self.focus == RepositoryFocus::Search,
                placeholder: "Filter skills… · repo:owner/repo · status:invalid · keywords"@,
            },
            shown(
                Rect::at(inner.x as int, inner.y + 3, inner.width as int, 1),
                seq![seq![plain_run(" Candidate skills "@)]],
                if self.focus == RepositoryFocus::List {
                    theme.accent()
                } else {
                    theme.dim()
                },
            ),
            marked_list(
                self.list_at(inner),
                self.rows(inner.width as int, theme),
                theme.selected(),
                "› "@,
            ),
        ]
    }

    /// The drawing of the dialog. `local_name` is the name that the selected skill would get.
    pub open spec fn scene(self, area: Rect, local_name: Seq<char>, theme: Theme) -> Seq<DrawView> {
        let rect = dialog_in(area);
        let inner = rect.inside();
        let border = seq![DrawView::Clear(rect), framed(rect, self.title())];
        if inner.height < 6 {
            border
        } else {
            border + self.label_scene(inner, theme) + self.field_scene(inner) + self.name_scene(
                inner,
                local_name,
            ) + self.tree_scene(inner, theme)
        }
    }
}

proof fn lemma_kept_len(paths: Seq<Seq<char>>, keep: spec_fn(Seq<char>) -> bool)
    ensures
        kept(paths, keep).len() <= paths.len(),
    decreases paths.len(),
{
    if paths.len() > 0 {
        lemma_kept_len(paths.drop_last(), keep);
    }
}

fn field(rect: Rect, input: &Input, focused: bool, placeholder: &str) -> (r: Draw)
    ensures
        r@ == (DrawView::Field {
            rect,
            value: input@.text,
            cursor: input@.cursor as usize,
            focused,
            placeholder: placeholder@,
        }),
{
    Draw::Field {
        rect,
        value: input.value(),
        cursor: input.cursor,
        focused,
        placeholder: placeholder.to_owned(),
    }
}

impl RepositoryPicker {
    fn draw_row(&self, path: &str, root: bool, width: u16, theme: &Theme) -> (r: Line)
        requires
            root == has_root(self@.selection.choices),
        ensures
            r@ == self@.row(path@, width as int, *theme),
    {
        let choice = find_choice(&self.selection.fetched.choices, path);
        let skill = choice.is_some() && self.matches_filter(path);
        let chosen = skill && list_holds(&self.selection.paths, path);
        let reason = if skill && !chosen {
            self.disabled(path)
        } else {
            None
        };
        assert(crate::text::said(reason) == self@.row_reason(path@));
        let mark = if !skill {
            "    "
        } else if chosen {
            "[x] "
        } else if reason.is_some() {
            "[-] "
        } else {
            "[ ] "
        };
        let restores = self.restores_missing(path);
        let invalid = match choice {
            Some(i) => self.selection.fetched.choices[i].invalid.is_some(),
            None => false,
        };
        let style = if invalid {
            theme.err()
        } else if !skill || reason.is_some() || restores {
            theme.dim()
        } else {
            theme.bold()
        };
        let suffix = match &reason {
            Some(reason) => cat3("  (", reason.as_str(), ")"),
            None => if skill && restores {
                "  (missing locally — restore)".to_owned()
            } else {
                "".to_owned()
            },
        };
        let label = self.draw_label(path);
        let text = cat4(indent(path, root).as_str(), mark, label.as_str(), suffix.as_str());
        Line::one(
            Span::of(fit(text.as_str(), width.saturating_sub(2) as usize), style),
        )
    }

    fn draw_label(&self, path: &str) -> (r: String)
        ensures
            r@ == self@.row_label(path@),
    {
        match find_choice(&self.selection.fetched.choices, path) {
            Some(i) => match &self.selection.fetched.choices[i].name {
                Some(name) => {
                    return name.clone();
                },
                None => {},
            },
            None => {},
        }
        if chars_of(path).len() == 0 {
            ". (source root)".to_owned()
        } else {
            tail_after(path, '/')
        }
    }

    fn draw_rows(&self, width: u16, theme: &Theme) -> (r: Lines)
        ensures
            r@ == self@.rows(width as int, *theme),
    {
        let root = offers_root(&self.selection.fetched.choices);
        let mut lines = Lines::new();
        let ghost all = self@.rows(width as int, *theme);
        let mut i: usize = 0;
        while i < self.shown.len()
            invariant
                i <= self.shown.len(),
                root == has_root(self@.selection.choices),
                all == self@.rows(width as int, *theme),
                lines@ == all.take(i as int),
            decreases self.shown.len() - i,
        {
            let line = self.draw_row(self.shown[i].as_str(), root, width, theme);
            assert(line@ == all[i as int]);
            lines.push(line);
            i = i + 1;
            assert(lines@ =~= all.take(i as int));
        }
        assert(lines@ =~= all);
        lines
    }

    fn title(&self) -> (r: String)
        ensures
            r@ == self@.title(),
    {
        let inside = take_among(&self.selection.paths, &self.matching).len();
        proof {
            let wanted = texts(self.matching@);
            lemma_kept_len(texts(self.selection.paths@), |p: Seq<char>| wanted.contains(p));
            assert(texts(self.selection.paths@).len() == self.selection.paths@.len());
        }
        cat5(
            " install · ",
            decimal(inside).as_str(),
            " selected to install · ",
            decimal(self.selection.paths.len() - inside).as_str(),
            " outside filter (excluded) ",
        )
    }

    fn draw_labels(&self, scene: &mut Scene, inner: Rect, theme: &Theme)
        requires
            inner.in_range(),
            inner.height >= 6,
        ensures
            final(scene)@ == old(scene)@ + self@.label_scene(inner, *theme),
    {
        let archive = self.selection.fetched.repository.kind == SourceKind::Archive;
        let label = if archive {
            if inner.width < 56 {
                "Package name *"
            } else {
                "Package name (required)"
            }
        } else {
            "Source name"
        };
        let (source, _) = label_rects(inner, inner.y);
        let (alias, _) = label_rects(inner, inner.y + 1);
        let (name, _) = label_rects(inner, inner.bottom() - 1);
        scene.line(source, Line::styled(label, theme.dim()), Style::plain());
        scene.line(alias, Line::styled("Storage folder", theme.dim()), Style::plain());
        scene.line(name, Line::styled("Local skill name", theme.dim()), Style::plain());
        assert(scene@ =~= old(scene)@ + self@.label_scene(inner, *theme));
    }

    fn draw_fields(&self, scene: &mut Scene, inner: Rect)
        requires
            inner.in_range(),
            inner.height >= 6,
        ensures
            final(scene)@ == old(scene)@ + self@.field_scene(inner),
    {
        let archive = self.selection.fetched.repository.kind == SourceKind::Archive;
        let (_, source) = label_rects(inner, inner.y);
        let (_, alias) = label_rects(inner, inner.y + 1);
        scene.push(
            field(
                source,
                &self.source_name,
                self.focus == RepositoryFocus::SourceName,
                if archive {
                    "required · e.g. merlin"
                } else {
                    "owner/repository"
                },
            ),
        );
        scene.push(field(alias, &self.alias, self.focus == RepositoryFocus::Alias, ""));
        assert(scene@ =~= old(scene)@ + self@.field_scene(inner));
    }

    fn draw_name(&self, scene: &mut Scene, inner: Rect, local_name: &str)
        requires
            inner.in_range(),
            inner.height >= 6,
        ensures
            final(scene)@ == old(scene)@ + self@.name_scene(inner, local_name@),
    {
        let (_, at) = label_rects(inner, inner.bottom() - 1);
        if self.focus == RepositoryFocus::LocalName {
            scene.push(field(at, &self.local_name, true, ""));
        } else if self.selected().is_some() {
            scene.note(at, fit(local_name, at.width as usize).as_str(), Style::plain());
        }
        assert(scene@ =~= old(scene)@ + self@.name_scene(inner, local_name@));
    }

    fn draw_tree(&self, scene: &mut Scene, inner: Rect, theme: &Theme)
        requires
            inner.in_range(),
            inner.height >= 6,
        ensures
            final(scene)@ == old(scene)@ + self@.tree_scene(inner, *theme),
    {
        scene.push(
            field(
                Rect::new(inner.x, inner.y + 2, inner.width, 1),
                &self.search,
                self.focus == RepositoryFocus::Search,
                "Filter skills… · repo:owner/repo · status:invalid · keywords",
            ),
        );
        scene.note(
            Rect::new(inner.x, inner.y + 3, inner.width, 1),
            " Candidate skills ",
            if self.focus == RepositoryFocus::List {
                theme.accent()
            } else {
                theme.dim()
            },
        );
        let rows = self.draw_rows(inner.width, theme);
        let mut list = self.list;
        list.rows = Rect::new(
            inner.x,
            inner.y + 4,
            inner.width,
            inner.height.saturating_sub(5),
        );
        list.show(self.shown.len());
        scene.marked_list(list, rows, theme.selected(), "› ");
        assert(scene@ =~= old(scene)@ + self@.tree_scene(inner, *theme));
    }

    /// Puts the fields where they are drawn.
    fn place(&mut self, rect: Rect)
        requires
            rect.in_range(),
            old(self)@.valid(),
            rect.inside().height >= 6,
        ensures
            final(self)@.valid(),
            ({
                let inner = rect.inside();
                let source_field = field_in(inner, inner.y as int);
                let alias_field = field_in(inner, inner.y + 1);
                let name_field = field_in(inner, inner.end_y() - 1);
                final(self)@ == (RepositoryPickerView {
                    rect,
                    alias_field,
                    search_field: search_in(inner),
                    name_field,
                    source_field,
                    source_name: InputView { field: source_field, ..old(self)@.source_name },
                    alias: InputView { field: alias_field, ..old(self)@.alias },
                    search: InputView { field: search_in(inner), ..old(self)@.search },
                    local_name: InputView { field: name_field, ..old(self)@.local_name },
                    list: old(self)@.list_at(inner),
                    ..old(self)@
                })
            }),
    {
        let inner = rect.inner();
        let (_, source) = label_rects(inner, inner.y);
        let (_, alias) = label_rects(inner, inner.y + 1);
        let (_, name) = label_rects(inner, inner.bottom() - 1);
        self.rect = rect;
        self.source_field = source;
        self.alias_field = alias;
        self.name_field = name;
        self.search_field = Rect::new(inner.x, inner.y + 2, inner.width, 1);
        self.source_name.place(source);
        self.alias.place(alias);
        self.local_name.place(name);
        self.search.place(self.search_field);
        self.list.rows = Rect::new(
            inner.x,
            inner.y + 4,
            inner.width,
            inner.height.saturating_sub(5),
        );
        self.list.show(self.shown.len());
    }

    /// The drawing inside the border.
    fn draw_inside(&self, scene: &mut Scene, inner: Rect, local_name: &str, theme: &Theme)
        requires
            inner.in_range(),
            inner.height >= 6,
        ensures
            final(scene)@ == old(scene)@ + self@.label_scene(inner, *theme) + self@.field_scene(
                inner,
            ) + self@.name_scene(inner, local_name@) + self@.tree_scene(inner, *theme),
    {
        self.draw_labels(scene, inner, theme);
        self.draw_fields(scene, inner);
        self.draw_name(scene, inner, local_name);
        self.draw_tree(scene, inner, theme);
    }

    /// Draws the dialog in an area. `local_name` is the name that the selected skill would
    /// get.
    pub fn draw(&mut self, area: Rect, local_name: &str, theme: &Theme) -> (r: Scene)
        requires
            area.in_range(),
            old(self)@.valid(),
        ensures
            final(self)@ == old(self)@.placed(area),
            final(self)@.valid(),
            r@ == old(self)@.scene(area, local_name@, *theme),
    {
        let rect = place_dialog(area);
        let inner = rect.inner();
        let title = self.title();
        let mut scene = Scene::new();
        scene.clear(rect);
        scene.frame(rect, title.as_str());
        if inner.height < 6 {
            self.rect = rect;
            self.alias_field = Rect::zero();
            self.search_field = Rect::zero();
            self.name_field = Rect::zero();
            self.source_field = Rect::zero();
            self.list.rows = Rect::zero();
            return scene;
        }
        self.draw_inside(&mut scene, inner, local_name, theme);
        self.place(rect);
        scene
    }
}

// ---- laws --------------------------------------------------------------------

/// No two chosen paths stand one above the other.
pub open spec fn antichain(paths: Seq<Seq<char>>) -> bool {
    forall|i: int, j: int|
        0 <= i < j < paths.len() ==> !are_related(#[trigger] paths[i], #[trigger] paths[j])
}

/// What is kept stands in the order that it had.
proof fn lemma_kept(paths: Seq<Seq<char>>, keep: spec_fn(Seq<char>) -> bool)
    ensures
        antichain(paths) ==> antichain(kept(paths, keep)),
        forall|i: int|
            0 <= i < kept(paths, keep).len() ==> keep(#[trigger] kept(paths, keep)[i])
                && paths.contains(kept(paths, keep)[i]),
    decreases paths.len(),
{
    if paths.len() > 0 {
        let before = paths.drop_last();
        lemma_kept(before, keep);
        let got = kept(paths, keep);
        let old_kept = kept(before, keep);
        assert forall|i: int| 0 <= i < got.len() implies keep(#[trigger] got[i])
            && paths.contains(got[i]) by {
            if i < old_kept.len() {
                assert(got[i] == old_kept[i]);
                let k = choose|k: int| 0 <= k < before.len() && before[k] == old_kept[i];
                assert(paths[k] == got[i]);
            } else {
                assert(paths[paths.len() - 1] == got[i]);
            }
        }
        if antichain(paths) {
            assert(antichain(before)) by {
                assert forall|i: int, j: int| 0 <= i < j < before.len() implies !are_related(
                    #[trigger] before[i],
                    #[trigger] before[j],
                ) by {
                    assert(!are_related(paths[i], paths[j]));
                }
            }
            assert forall|i: int, j: int| 0 <= i < j < got.len() implies !are_related(
                #[trigger] got[i],
                #[trigger] got[j],
            ) by {
                assert(got[i] == old_kept[i]);
                if j < old_kept.len() {
                    assert(got[j] == old_kept[j]);
                } else {
                    let k = choose|k: int| 0 <= k < before.len() && before[k] == old_kept[i];
                    assert(paths[k] == got[i]);
                    assert(paths[paths.len() - 1] == got[j]);
                }
            }
        }
    }
}

/// However skills are chosen, one and another below it are never chosen together.
pub proof fn lemma_chosen_paths_stay_unrelated(picker: RepositoryPickerView, path: Seq<char>)
    requires
        antichain(picker.selection.paths),
    ensures
        antichain(picker.toggled(path).0.selection.paths),
{
    let paths = picker.selection.paths;
    lemma_kept(paths, differs(path));
    lemma_kept(paths, |p: Seq<char>| !are_related(p, path));
    let after = unrelated(paths, path).push(path);
    if antichain(paths) {
        assert forall|i: int, j: int| 0 <= i < j < after.len() implies !are_related(
            #[trigger] after[i],
            #[trigger] after[j],
        ) by {
            let got = unrelated(paths, path);
            assert(after[i] == got[i]);
            if j < got.len() {
                assert(after[j] == got[j]);
            } else {
                assert(!are_related(got[i], path));
            }
        }
    }
    assert(antichain(others(paths, path)));
    assert(antichain(after));
}

/// What is installed was chosen, and is not filtered out.
pub proof fn lemma_only_visible_choices_are_installed(picker: RepositoryPickerView, path: Seq<char>)
    requires
        picker.installing() is Resolve,
        (picker.installing()->Resolve_0).paths.contains(path),
    ensures
        picker.selection.paths.contains(path),
        picker.passes(path),
{
    let matching = picker.matching;
    lemma_kept(picker.selection.paths, |p: Seq<char>| matching.contains(p));
    let got = among(picker.selection.paths, picker.matching);
    let i = choose|i: int| 0 <= i < got.len() && got[i] == path;
    assert(got[i] == path);
}

/// Nothing that is invalid, filtered out or installed already is ever chosen.
pub proof fn lemma_disabled_is_not_chosen(picker: RepositoryPickerView, path: Seq<char>)
    requires
        picker.disabled(path) is Some,
        !picker.selection.paths.contains(path),
    ensures
        picker.toggled(path).0 == picker,
{
}

/// Tab goes round the fields, and Shift-Tab goes back the same way.
pub proof fn lemma_fields_go_round(focus: RepositoryFocus)
    ensures
        focus.next(false).next(true) == focus,
        focus.next(true).next(false) == focus,
        focus.next(false).next(false).next(false).next(false).next(false) == focus,
{
}

/// Every match is shown together with the directories above it.
pub proof fn lemma_matches_are_shown(
    choices: Seq<Candidate>,
    matching: Seq<Seq<char>>,
    nodes: Seq<Seq<char>>,
    i: int,
    k: int,
)
    requires
        shown_nodes(choices, matching, nodes),
        0 <= i < choices.len(),
        1 <= k <= components(choices[i].path@).len(),
        matching.contains(choices[i].path@),
        are_related(joined(components(choices[i].path@).take(k), "/"@), choices[i].path@)
            || joined(components(choices[i].path@).take(k), "/"@) == choices[i].path@,
    ensures
        nodes.contains(joined(components(choices[i].path@).take(k), "/"@)),
{
    let path = choices[i].path@;
    let node = joined(components(path).take(k), "/"@);
    assert(node_of(path, node));
    assert(is_node(choices, node));
    let m = choose|m: int| 0 <= m < matching.len() && matching[m] == path;
    assert(matching[m] == path);
    assert(is_shown(matching, node));
}

/// Where nothing matches, nothing is shown.
pub proof fn lemma_no_match_shows_nothing(choices: Seq<Candidate>, nodes: Seq<Seq<char>>)
    requires
        shown_nodes(choices, Seq::empty(), nodes),
    ensures
        nodes.len() == 0,
{
    if nodes.len() > 0 {
        assert(nodes.contains(nodes[0]));
    }
}

proof fn lemma_kept_is_filtered(paths: Seq<Seq<char>>, keep: spec_fn(Seq<char>) -> bool)
    ensures
        kept(paths, keep) == paths.filter(keep),
        forall|p: Seq<char>| #[trigger]
            kept(paths, keep).contains(p) <==> paths.contains(p) && keep(p),
    decreases paths.len(),
{
    reveal(Seq::filter);
    if paths.len() > 0 {
        let front = paths.drop_last();
        let last = paths.last();
        let before = kept(front, keep);
        lemma_kept_is_filtered(front, keep);
        assert(paths =~= front.push(last));
        assert forall|p: Seq<char>| #[trigger] kept(paths, keep).contains(p) <==> paths.contains(p)
            && keep(p) by {
            lemma_pushed(front, last, p);
            lemma_pushed(before, last, p);
            assert(before.contains(p) <==> front.contains(p) && keep(p));
        }
    } else {
        assert(kept(paths, keep) =~= paths);
    }
}

proof fn lemma_pushed(list: Seq<Seq<char>>, last: Seq<char>, p: Seq<char>)
    ensures
        list.push(last).contains(p) <==> list.contains(p) || p == last,
{
    assert(list.push(last)[list.len() as int] == last);
    if list.contains(p) {
        let i = choose|i: int| 0 <= i < list.len() && list[i] == p;
        assert(list.push(last)[i] == p);
    }
    if list.push(last).contains(p) && p != last {
        let i = choose|i: int| 0 <= i < list.push(last).len() && list.push(last)[i] == p;
        assert(list[i] == p);
    }
}

/// What is installed is all that was chosen and is not filtered out, in the order in which it
/// was chosen, from the repository and under the names that the dialog has. Without any of
/// that nothing is installed, which is said.
pub proof fn lemma_the_visible_choices_are_installed(
    picker: RepositoryPickerView,
    checks: Checks,
    actions: Seq<Action>,
)
    requires
        picker.resumed(Resume::Install, checks).1.told(actions),
    ensures
        ({
            let wanted = picker.selection.paths.filter(
                |p: Seq<char>| picker.matching.contains(p),
            );
            &&& actions.len() == 1
            &&& wanted.len() > 0 ==> (actions[0] matches Action::ResolveNames(chosen) && {
                &&& chosen@.paths == wanted
                &&& chosen@.repository == picker.selection.repository
                &&& chosen@.names == picker.selection.names
                &&& chosen@.workdir == picker.selection.workdir
                &&& chosen@.revision == picker.selection.revision
            })
            &&& wanted.len() == 0 ==> actions[0] is Error
            &&& picker.resumed(Resume::Install, checks).0 == picker
        }),
{
    let matching = picker.matching;
    let keep = |p: Seq<char>| matching.contains(p);
    lemma_kept_is_filtered(picker.selection.paths, keep);
}

/// The blank on a skill chooses it or gives it up. Giving it up leaves all other choices;
/// choosing it leaves all but those above or below it.
pub proof fn lemma_the_blank_chooses_a_skill(
    picker: RepositoryPickerView,
    key: KeyEvent,
    checks: Checks,
    path: Seq<char>,
    other: Seq<char>,
    i: int,
)
    requires
        picker.preview is None,
        picker.focus == RepositoryFocus::List,
        key.code == KeyCode::Char(' '),
        picker.selected() == Some(path),
        choice_at(picker.selection.choices, path) == Some(i),
        0 <= i < picker.selection.choices.len(),
        picker.selection.choices[i].path@ == path,
        other != path,
    ensures
        ({
            let before = picker.selection.paths;
            let (after, reply) = picker.keyed(key, checks);
            let free = picker.selection.choices[i].invalid is None
                && !picker.selection.choices[i].installed && picker.matching.contains(path)
                && forall|k: int|
                0 <= k < before.len() && picker.matching.contains(#[trigger] before[k])
                    ==> !are_related(before[k], path);
            &&& before.contains(path) ==> {
                &&& reply is Nothing
                &&& !after.selection.paths.contains(path)
                &&& after.selection.paths.contains(other) <==> before.contains(other)
            }
            &&& !before.contains(path) && free ==> {
                &&& reply is Nothing
                &&& after.selection.paths.contains(path)
                &&& after.selection.paths.contains(other) <==> before.contains(other)
                    && !are_related(other, path)
            }
            &&& !before.contains(path) && !free ==> after == picker && reply is Complain
            &&& after.selection.choices == picker.selection.choices
            &&& after.selection.names == picker.selection.names
        }),
{
    let before = picker.selection.paths;
    let apart = |p: Seq<char>| !are_related(p, path);
    lemma_kept_is_filtered(before, differs(path));
    lemma_kept_is_filtered(before, apart);
    lemma_pushed(unrelated(before, path), path, other);
    lemma_pushed(unrelated(before, path), path, path);
    assert(others(before, path).contains(path) <==> before.contains(path) && differs(path)(path));
    assert(others(before, path).contains(other) <==> before.contains(other) && differs(path)(
        other,
    ));
    assert(unrelated(before, path).contains(other) <==> before.contains(other) && apart(other));
}

/// Why a skill cannot be chosen: the first of these that holds is told.
pub proof fn lemma_why_a_skill_cannot_be_chosen(
    picker: RepositoryPickerView,
    path: Seq<char>,
    i: int,
)
    requires
        choice_at(picker.selection.choices, path) == Some(i),
    ensures
        ({
            let choice = picker.selection.choices[i];
            let reason = picker.disabled(path);
            &&& choice.invalid matches Some(error) ==> reason == Some("invalid: "@ + error@)
            &&& choice.invalid is None && !picker.matching.contains(path) ==> reason == Some(
                "outside current filter"@,
            )
            &&& choice.invalid is None && picker.matching.contains(path) && !picker.blocked(path)
                && choice.installed ==> reason == Some("already installed"@)
            &&& choice.invalid is None && picker.matching.contains(path) && !picker.blocked(path)
                && !choice.installed ==> reason is None
            &&& choice.invalid is None && picker.matching.contains(path) && picker.blocked(path)
                ==> reason == Some("ancestor or descendant selected"@)
        }),
{
}

/// A directory stands above a path where the path goes on behind it after a slash; the root
/// stands above everything else. Nothing stands above itself.
pub proof fn lemma_what_stands_above(above: Seq<char>, rest: Seq<char>, path: Seq<char>)
    ensures
        above.len() > 0 ==> is_ancestor(above, above + "/"@ + rest),
        is_ancestor(Seq::empty(), path) <==> path.len() > 0,
        !is_ancestor(path, path),
        is_ancestor(above, path) ==> path.len() > above.len() && path.take(above.len() as int)
            == above,
        is_ancestor(above, path) && above.len() > 0 ==> path[above.len() as int] == '/',
        are_related(above, path) == are_related(path, above),
{
    reveal_strlit("/");
    let whole = above + "/"@ + rest;
    if above.len() > 0 {
        assert(whole.subrange(0, (above + "/"@).len() as int) =~= above + "/"@);
    }
    if is_ancestor(above, path) {
        if above.len() > 0 {
            let part = above + "/"@;
            assert(path.take(above.len() as int) =~= above) by {
                assert forall|k: int| 0 <= k < above.len() implies path[k] == above[k] by {
                    assert(path.subrange(0, part.len() as int)[k] == part[k]);
                }
            }
            assert(path.subrange(0, part.len() as int)[above.len() as int]
                == part[above.len() as int]);
        } else {
            assert(path.take(0) =~= above);
        }
    }
}

proof fn lemma_first_name(
    names: Seq<(Seq<char>, Seq<char>)>,
    path: Seq<char>,
    at: int,
)
    requires
        0 <= at <= names.len(),
    ensures
        name_from(names, path, at) matches Some(i) ==> at <= i < names.len() && names[i].0 == path
            && forall|k: int| at <= k < i ==> (#[trigger] names[k]).0 != path,
        name_from(names, path, at) is None ==> forall|k: int|
            at <= k < names.len() ==> (#[trigger] names[k]).0 != path,
    decreases names.len() - at,
{
    if at < names.len() && names[at].0 != path {
        lemma_first_name(names, path, at + 1);
    }
}

proof fn lemma_place_in_names(names: Seq<(Seq<char>, Seq<char>)>, path: Seq<char>, at: int)
    requires
        0 <= at <= names.len(),
    ensures
        at <= place_from(names, path, at) <= names.len(),
    decreases names.len() - at,
{
    if at < names.len() {
        lemma_place_in_names(names, path, at + 1);
    }
}

/// A skill that is given a name has that name, and every other skill keeps its own.
pub proof fn lemma_a_name_is_given(
    names: Seq<(Seq<char>, Seq<char>)>,
    path: Seq<char>,
    name: Seq<char>,
    other: Seq<char>,
)
    requires
        other != path,
    ensures
        name_for(named_with(names, path, name), path) == Some(name),
        name_for(named_with(names, path, name), other) == name_for(names, other),
{
    let after = named_with(names, path, name);
    lemma_first_name(names, path, 0);
    lemma_first_name(names, other, 0);
    lemma_first_name(after, path, 0);
    lemma_first_name(after, other, 0);
    lemma_place_in_names(names, path, 0);
    match name_from(names, path, 0) {
        Some(i) => {
            assert(after[i] == (path, name));
            assert forall|k: int| 0 <= k < names.len() && k != i implies after[k] == names[k] by {}
            if name_from(names, other, 0) is Some {
                let k = name_from(names, other, 0)->0;
                assert(after[k] == names[k]);
            }
            if name_from(after, other, 0) is Some {
                let k = name_from(after, other, 0)->0;
                assert(after[k] == names[k]);
            }
            if name_from(after, path, 0) is Some {
                let k = name_from(after, path, 0)->0;
                if k < i {
                    assert(after[k] == names[k]);
                }
            }
        },
        None => {
            let p = place_from(names, path, 0);
            assert(after[p] == (path, name));
            assert forall|k: int| 0 <= k < p implies after[k] == names[k] by {}
            assert forall|k: int| p < k < after.len() implies after[k] == names[k - 1] by {}
            if name_from(after, path, 0) is Some {
                let k = name_from(after, path, 0)->0;
                if k < p {
                    assert(after[k] == names[k]);
                }
            }
            if name_from(names, other, 0) is Some {
                let k = name_from(names, other, 0)->0;
                if k < p {
                    assert(after[k] == names[k]);
                    if name_from(after, other, 0)->0 < k {
                        let j = name_from(after, other, 0)->0;
                        assert(after[j] == names[j]);
                    }
                } else {
                    assert(after[k + 1] == names[k]);
                    let j = name_from(after, other, 0)->0;
                    if j < p {
                        assert(after[j] == names[j]);
                    } else if p < j < k + 1 {
                        assert(after[j] == names[j - 1]);
                    }
                }
            } else if name_from(after, other, 0) is Some {
                let k = name_from(after, other, 0)->0;
                if k < p {
                    assert(after[k] == names[k]);
                } else {
                    assert(after[k] == names[k - 1]);
                }
            }
        },
    }
}

/// A field that is left is saved where it belongs, without the blanks around it, and only
/// where it is accepted: the folder, the name of the source, or the name of the selected
/// skill.
pub proof fn lemma_fields_are_saved_where_they_belong(
    picker: RepositoryPickerView,
    key: KeyEvent,
    checks: Checks,
    path: Seq<char>,
)
    requires
        picker.preview is None,
        key.code == KeyCode::Enter || key.code == KeyCode::Tab,
        picker.selected() == Some(path),
    ensures
        ({
            let (after, reply) = picker.keyed(key, checks);
            &&& picker.focus == RepositoryFocus::Alias ==> if checks.alias_ok {
                &&& after.selection.repository.alias == trimmed(picker.alias.text)
                &&& after.selection.repository.name == picker.selection.repository.name
                &&& after.selection.names == picker.selection.names
                &&& after.focus != RepositoryFocus::Alias
            } else {
                after == picker && reply == RepositoryReply::Complain("invalid storage folder"@)
            }
            &&& picker.focus == RepositoryFocus::LocalName ==> if checks.name_ok {
                &&& name_for(after.selection.names, path) == Some(
                    trimmed(picker.local_name.text),
                )
                &&& after.selection.repository == picker.selection.repository
                &&& after.focus != RepositoryFocus::LocalName
            } else {
                after == picker && reply == RepositoryReply::Complain("invalid local skill name"@)
            }
            &&& picker.focus == RepositoryFocus::SourceName ==> match checks.source_name {
                Ok(source) => {
                    &&& after.selection.repository.name == crate::text::said(source.name)
                    &&& after.selection.repository.display_name == source.display_name@
                    &&& after.selection.repository.alias == picker.selection.repository.alias
                    &&& reply is Search
                },
                Err(error) => reply == RepositoryReply::Complain(error@) && after.selection
                    == picker.selection,
            }
            &&& after.selection.paths == picker.selection.paths
            &&& after.selection.choices == picker.selection.choices
            &&& after.selection.workdir == picker.selection.workdir
        }),
{
    lemma_a_name_is_given(
        picker.selection.names,
        path,
        trimmed(picker.local_name.text),
        path.push('x'),
    );
    assert(path.push('x').len() != path.len());
}

/// Enter on the list first saves the folder and the name of the source, and then installs.
/// Where one of them is refused, that is said, its field gets the focus and nothing is
/// installed.
pub proof fn lemma_installing_saves_the_names_first(
    picker: RepositoryPickerView,
    key: KeyEvent,
    checks: Checks,
)
    requires
        picker.preview is None,
        picker.focus == RepositoryFocus::List,
        key.code == KeyCode::Enter,
    ensures
        ({
            let (after, reply) = picker.keyed(key, checks);
            &&& !checks.alias_ok ==> after.focus == RepositoryFocus::Alias && reply
                == RepositoryReply::Complain("invalid storage folder"@) && after.selection
                == picker.selection
            &&& checks.alias_ok ==> match checks.source_name {
                Ok(source) => {
                    &&& reply == (RepositoryReply::Search {
                        query: picker.search.text,
                        wait: Some(Resume::Install),
                    })
                    &&& after.selection.repository.alias == trimmed(picker.alias.text)
                    &&& after.selection.repository.name == crate::text::said(source.name)
                    &&& after.selection.repository.url == picker.selection.repository.url
                    &&& after.selection.repository.branch == picker.selection.repository.branch
                    &&& after.selection.paths == picker.selection.paths
                    &&& after.selection.names == picker.selection.names
                },
                Err(error) => after.focus == RepositoryFocus::SourceName && reply
                    == RepositoryReply::Complain(error@),
            }
        }),
{
}

/// Leaving the dialog installs nothing, and what was fetched goes.
pub proof fn lemma_leaving_discards_the_download(
    picker: RepositoryPickerView,
    key: KeyEvent,
    checks: Checks,
    actions: Seq<Action>,
)
    requires
        picker.preview is None,
        picker.focus != RepositoryFocus::Search,
        key.code == KeyCode::Esc || picker.focus == RepositoryFocus::List && key.code
            == KeyCode::Char('q') && key.modifiers == KeyModifiers::none(),
        picker.keyed(key, checks).1.told(actions),
    ensures
        actions.len() == 2,
        actions[0] matches Action::DiscardFetched(workdir) && workdir@ == picker.selection.workdir,
        actions[1] == Action::CloseModal,
{
}

/// Esc in the search closes its suggestions first, and then only the search.
pub proof fn lemma_leaving_the_search_keeps_the_dialog(
    picker: RepositoryPickerView,
    key: KeyEvent,
    checks: Checks,
)
    requires
        key.code == KeyCode::Esc,
        picker.preview is Some || picker.focus == RepositoryFocus::Search,
    ensures
        picker.keyed(key, checks).1 is Nothing,
        picker.keyed(key, checks).0.selection == picker.selection,
        picker.preview is Some ==> picker.keyed(key, checks).0.preview is None,
        picker.preview is None && picker.suggestions is Some ==> picker.keyed(
            key,
            checks,
        ).0.suggestions is None && picker.keyed(key, checks).0.focus == RepositoryFocus::Search,
        picker.preview is None && picker.suggestions is None ==> picker.keyed(key, checks).0.focus
            == RepositoryFocus::List,
{
}

/// The letters of the list lead to their fields.
pub proof fn lemma_letters_lead_to_their_fields(
    picker: RepositoryPickerView,
    key: KeyEvent,
    checks: Checks,
)
    requires
        picker.preview is None,
        picker.focus == RepositoryFocus::List,
    ensures
        key.code == KeyCode::Char('/') ==> picker.keyed(key, checks).0.focus
            == RepositoryFocus::Search,
        key.code == KeyCode::Char('a') ==> picker.keyed(key, checks).0.focus
            == RepositoryFocus::Alias,
        key.code == KeyCode::Char('n') ==> picker.keyed(key, checks).0.focus
            == RepositoryFocus::SourceName,
        key.code == KeyCode::Char('e') && picker.nameable() ==> picker.keyed(key, checks).0.focus
            == RepositoryFocus::LocalName && picker.keyed(key, checks).0.local_name.text
            == checks.local_name@,
        key.code == KeyCode::Char('v') && picker.nameable() ==> picker.keyed(key, checks).0.preview
            == picker.selected(),
        key.code is Char && key.code != KeyCode::Char(' ') && key.code != KeyCode::Char('q')
            ==> picker.keyed(key, checks).0.selection == picker.selection && picker.keyed(
            key,
            checks,
        ).1 is Nothing,
{
}

/// The words of a query are parted: those without a slash are searched for, and each of the
/// others asks what a path begins with. No word is lost.
pub proof fn lemma_queries_are_parted(list: Seq<Seq<char>>)
    ensures
        free_words(list) == list.filter(|w: Seq<char>| !w.contains('/')),
        path_prefixes(list) == list.filter(|w: Seq<char>| w.contains('/')).map_values(
            |w: Seq<char>| path_prefix(w),
        ),
        free_words(list).len() + path_prefixes(list).len() == list.len(),
    decreases list.len(),
{
    reveal(Seq::filter);
    if list.len() > 0 {
        let front = list.drop_last();
        lemma_queries_are_parted(front);
        let speaks = |w: Seq<char>| w.contains('/');
        let asks = |w: Seq<char>| path_prefix(w);
        let before = front.filter(speaks);
        if speaks(list.last()) {
            assert(before.push(list.last()).map_values(asks) =~= before.map_values(asks).push(
                asks(list.last()),
            ));
        }
    } else {
        assert(free_words(list) =~= list.filter(|w: Seq<char>| !w.contains('/')));
        assert(path_prefixes(list) =~= list.filter(|w: Seq<char>| w.contains('/')).map_values(
            |w: Seq<char>| path_prefix(w),
        ));
    }
}

/// A path that is asked for is seen from the root, whether it is written with a dot, with a
/// slash or plainly.
pub proof fn lemma_paths_are_seen_from_the_root(word: Seq<char>)
    requires
        word.len() > 0,
        word[0] != '/',
        word[0] != '.',
    ensures
        path_prefix(word) == lower(word),
        path_prefix("./"@ + word) == path_prefix(word),
        path_prefix("/"@ + word) == path_prefix(word),
{
    reveal_strlit("./");
    reveal_strlit("/");
    let dotted = "./"@ + word;
    assert(dotted.subrange(0, 2) =~= "./"@);
    assert(dotted.skip(2) =~= word);
    let slashed = "/"@ + word;
    assert(slashed[0] == '/');
    assert(slashed.skip(1) =~= word);
    if has_prefix(word, "./"@) {
        assert(word.subrange(0, 2)[0] == "./"@[0]);
    }
    if has_prefix(slashed, "./"@) {
        assert(slashed.subrange(0, 2)[0] == "./"@[0]);
    }
    reveal_with_fuel(unslashed, 2);
}

/// The names that are taken are those of the skills of this repository, each by the last part
/// of its key.
pub proof fn lemma_taken_names_are_of_this_repository(skills: Seq<SkillRecord>, alias: Seq<char>)
    ensures
        taken_names(skills, alias) == skills.filter(
            |s: SkillRecord| alias_in(s.key@) == Some(alias),
        ).map_values(|s: SkillRecord| after_last(s.key@, '/')),
    decreases skills.len(),
{
    reveal(Seq::filter);
    let belongs = |s: SkillRecord| alias_in(s.key@) == Some(alias);
    let named = |s: SkillRecord| after_last(s.key@, '/');
    if skills.len() > 0 {
        let front = skills.drop_last();
        lemma_taken_names_are_of_this_repository(front, alias);
        let before = front.filter(belongs);
        if belongs(skills.last()) {
            assert(before.push(skills.last()).map_values(named) =~= before.map_values(named).push(
                named(skills.last()),
            ));
        }
    } else {
        assert(taken_names(skills, alias) =~= skills.filter(belongs).map_values(named));
    }
}

/// The mark of a row says whether the skill is chosen, can be, or cannot be.
pub proof fn lemma_rows_say_what_is_chosen(picker: RepositoryPickerView, path: Seq<char>)
    requires
        choice_at(picker.selection.choices, path) is Some,
        picker.matching.contains(path),
    ensures
        picker.selection.paths.contains(path) ==> picker.row_mark(path) == "[x] "@,
        !picker.selection.paths.contains(path) && picker.disabled(path) is None ==> picker.row_mark(
            path,
        ) == "[ ] "@,
        !picker.selection.paths.contains(path) && picker.disabled(path) is Some ==> picker.row_mark(
            path,
        ) == "[-] "@,
{
}

/// An archive without a name has to be given one, and its dialog begins there; any other
/// dialog begins with the list. Nothing is chosen at first.
pub proof fn lemma_archives_are_named_first(fetched: FetchedRepository)
    ensures
        ({
            let nameless = fetched.repository.kind == SourceKind::Archive && (
            fetched.repository.name is None || trimmed((fetched.repository.name->0)@).len() == 0);
            &&& nameless <==> opened(fetched).focus == RepositoryFocus::SourceName
            &&& !nameless <==> opened(fetched).focus == RepositoryFocus::List
            &&& opened(fetched).selection.paths.len() == 0
            &&& opened(fetched).selection.names.len() == 0
            &&& opened(fetched).selection.choices == fetched.choices@
            &&& opened(fetched).selection.workdir == fetched.workdir@
            &&& opened(fetched).alias.text == fetched.repository.alias@
        }),
{
}

/// A row is called by the name that its skill declares, or by the last part of its path; the
/// root says that it is the root.
pub proof fn lemma_what_a_row_is_called(picker: RepositoryPickerView, path: Seq<char>)
    ensures
        ({
            let at = choice_at(picker.selection.choices, path);
            let named = at is Some && picker.selection.choices[at->0].name is Some;
            &&& named ==> picker.row_label(path) == picker.selection.choices[at->0].name->0@
            &&& !named && path.len() == 0 ==> picker.row_label(path) == ". (source root)"@
            &&& !named && path.len() > 0 ==> picker.row_label(path) == after_last(path, '/')
        }),
{
}

/// A row that cannot be chosen says why; one that was chosen, or can be, does not.
pub proof fn lemma_a_row_says_why_not(picker: RepositoryPickerView, path: Seq<char>)
    ensures
        picker.is_skill(path) && !picker.is_chosen(path) && picker.disabled(path) is Some
            ==> picker.row_suffix(path) == "  ("@ + picker.disabled(path)->0 + ")"@,
        (!picker.is_skill(path) || picker.is_chosen(path) || picker.disabled(path) is None)
            && picker.is_skill(path) && picker.restores(path) ==> picker.row_suffix(path)
            == "  (missing locally — restore)"@,
        !picker.is_skill(path) ==> picker.row_suffix(path) == ""@,
{
}

/// The search finds what the query found below every directory that was asked for.
pub proof fn lemma_what_a_search_finds(hits: Seq<Seq<char>>, prefixes: Seq<Seq<char>>, path: Seq<char>)
    ensures
        is_match(hits, prefixes, path) <==> hits.contains(path) && forall|i: int|
            0 <= i < prefixes.len() ==> has_prefix(lower(path), #[trigger] prefixes[i]),
        prefixes.len() == 0 ==> (is_match(hits, prefixes, path) <==> hits.contains(path)),
{
}

/// Where nothing is chosen that the filter shows, nothing is installed, and why is said.
pub proof fn lemma_nothing_chosen_is_not_installed(picker: RepositoryPickerView)
    requires
        forall|i: int|
            0 <= i < picker.selection.paths.len() ==> !picker.matching.contains(
                #[trigger] picker.selection.paths[i],
            ),
    ensures
        picker.installing() == RepositoryReply::Complain(
            "select at least one skill in the current filter"@,
        ),
{
    let matching = picker.matching;
    let got = among(picker.selection.paths, matching);
    if got.len() > 0 {
        lemma_kept(picker.selection.paths, |p: Seq<char>| matching.contains(p));
        assert(got.contains(got[0]));
    }
}

/// The title counts what would be installed, and what was chosen but is filtered out.
pub proof fn lemma_the_title_counts_the_choices(picker: RepositoryPickerView)
    ensures
        ({
            let inside = picker.selection.paths.filter(
                |p: Seq<char>| picker.matching.contains(p),
            ).len() as int;
            picker.title() == " install · "@ + numeral(inside) + " selected to install · "@
                + numeral(picker.selection.paths.len() - inside) + " outside filter (excluded) "@
        }),
{
    let matching = picker.matching;
    lemma_kept_is_filtered(picker.selection.paths, |p: Seq<char>| matching.contains(p));
    assert(picker.selection.paths.filter(|p: Seq<char>| matching.contains(p))
        == picker.selection.paths.filter(|p: Seq<char>| picker.matching.contains(p)));
}

/// The hints of the dialog follow what has the keys.
pub proof fn lemma_the_hints_of_a_repository(picker: RepositoryPickerView)
    ensures
        picker.focus == RepositoryFocus::List ==> picker.hint_list() == seq![
            ("Space", "select"),
            ("v", "preview"),
            ("Enter", "install selected"),
            ("n", "source name"),
            ("a", "storage folder"),
            ("e", "skill name"),
            ("/", "filter"),
            ("Esc", "cancel"),
        ],
        picker.focus == RepositoryFocus::Search && picker.suggestions is Some
            ==> picker.hint_list()[0] == ("↑↓", "suggestions") && picker.hint_list().last() == (
            "Esc",
            "close suggestions",
        ),
        picker.focus != RepositoryFocus::List && !(picker.focus == RepositoryFocus::Search
            && picker.suggestions is Some) ==> picker.hint_list() == seq![
            ("type", "edit"),
            ("Enter/↓", "list"),
            ("Tab/⇧Tab", "fields"),
            ("Esc", "cancel"),
        ],
{
}

/// The wheel moves the list by as many rows as it is set to, where it is over the list; a
/// press beside the dialog does what Escape does.
pub proof fn lemma_mouse_of_a_repository(
    picker: RepositoryPickerView,
    event: MouseEvent,
    wheel: int,
    checks: Checks,
    escape: KeyEvent,
)
    requires
        picker.preview is None,
        !(picker.focus == RepositoryFocus::Search && picker.suggestions is Some
            && picker.suggestions->0.has(event.column as int, event.row as int)),
        escape == (KeyEvent { code: KeyCode::Esc, modifiers: KeyModifiers::none() }),
    ensures
        ({
            let x = event.column as int;
            let y = event.row as int;
            let n = picker.shown.len() as int;
            let after = picker.moused(event, wheel, checks);
            let over = picker.list.rows.has(x, y);
            &&& event.kind == MouseKind::ScrollDown && over ==> after.1 is Nothing
                && after.0.list.selected == moved(picker.list.selected, wheel, n)
            &&& event.kind == MouseKind::ScrollUp && over ==> after.1 is Nothing
                && after.0.list.selected == moved(picker.list.selected, -wheel, n)
            &&& (event.kind == MouseKind::ScrollDown || event.kind == MouseKind::ScrollUp) && !over
                ==> after == (picker, RepositoryReply::Nothing)
            &&& event.kind == MouseKind::Down && !picker.rect.has(x, y) ==> after == picker.keyed(
                escape,
                checks,
            )
            &&& event.kind != MouseKind::Down ==> after.0.selection == picker.selection
        }),
{
}

/// A press on a field gives it the keys and its cursor that place; on a row it chooses the
/// skill there, or gives it up, as the blank does.
pub proof fn lemma_presses_inside_a_repository(
    picker: RepositoryPickerView,
    event: MouseEvent,
    checks: Checks,
    at: usize,
)
    ensures
        ({
            let x = event.column as int;
            let y = event.row as int;
            let after = picker.pressed(event, checks);
            let named = picker.name_field.has(x, y);
            let aliased = !named && picker.alias_field.has(x, y);
            let searched = !named && !aliased && picker.search_field.has(x, y);
            let sourced = !named && !aliased && !searched && picker.source_field.has(x, y);
            &&& aliased ==> after.0.focus == RepositoryFocus::Alias && after.0.alias
                == picker.alias.clicked(x) && after.1 is Nothing
            &&& searched ==> after.0.focus == RepositoryFocus::Search && after.0.search
                == picker.search.clicked(x) && after.1 is Suggest
            &&& sourced ==> after.0.focus == RepositoryFocus::SourceName && after.0.source_name
                == picker.source_name.clicked(x) && after.1 is Nothing
            &&& !named && !aliased && !searched && !sourced && picker.list.rows.has(x, y)
                && picker.list.hit(y, picker.shown.len() as int) == Some(at) ==> after
                == (RepositoryPickerView {
                focus: RepositoryFocus::List,
                list: ListNav { selected: Some(at), ..picker.list },
                ..picker
            }).toggled(picker.shown[at as int])
            &&& named || aliased || searched || sourced ==> after.0.selection.paths
                == picker.selection.paths
        }),
{
}

/// A paste goes into the field that has the keys, and none into the list.
pub proof fn lemma_a_paste_goes_into_its_field(picker: RepositoryPickerView, text: Seq<char>)
    ensures
        picker.preview is Some || picker.focus == RepositoryFocus::List ==> picker.pasted(text) == (
            picker,
            RepositoryReply::Nothing,
        ),
        picker.preview is None && picker.focus != RepositoryFocus::List && is_multiline(text)
            ==> picker.pasted(text) == (
            picker,
            RepositoryReply::Complain("Paste a single line"@),
        ),
        picker.preview is None && !is_multiline(text) ==> {
            let after = picker.pasted(text).0;
            &&& picker.focus == RepositoryFocus::Alias ==> after.alias == picker.alias.with_pasted(
                text,
            ) && after.search == picker.search
            &&& picker.focus == RepositoryFocus::LocalName ==> after.local_name
                == picker.local_name.with_pasted(text) && after.search == picker.search
            &&& picker.focus == RepositoryFocus::SourceName ==> after.source_name
                == picker.source_name.with_pasted(text) && after.search == picker.search
            &&& picker.focus == RepositoryFocus::Search ==> after.search
                == picker.search.with_pasted(text)
            &&& after.selection == picker.selection
        },
{
}

/// Every field of the dialog can be pressed where it is drawn; drawing keeps what was chosen
/// and typed.
pub proof fn lemma_a_repository_is_pressed_where_it_is_drawn(
    picker: RepositoryPickerView,
    area: Rect,
    local_name: Seq<char>,
    theme: Theme,
)
    requires
        dialog_in(area).inside().height >= 6,
    ensures
        ({
            let after = picker.placed(area);
            let scene = picker.scene(area, local_name, theme);
            &&& scene.len() >= 10
            &&& scene[1] == framed(after.rect, picker.title())
            &&& scene[5] is Field
            &&& scene[5]->Field_rect == after.source_field
            &&& scene[5]->Field_value == picker.source_name.text
            &&& scene[5]->Field_focused == (picker.focus == RepositoryFocus::SourceName)
            &&& scene[6] is Field
            &&& scene[6]->Field_rect == after.alias_field
            &&& scene[6]->Field_value == picker.alias.text
            &&& scene[6]->Field_focused == (picker.focus == RepositoryFocus::Alias)
            &&& picker.focus == RepositoryFocus::LocalName ==> scene[7] is Field
                && scene[7]->Field_rect == after.name_field && scene[7]->Field_value
                == picker.local_name.text
            &&& scene[scene.len() - 3] is Field
            &&& scene[scene.len() - 3]->Field_rect == after.search_field
            &&& scene[scene.len() - 3]->Field_value == picker.search.text
            &&& scene[scene.len() - 1] is List
            &&& scene[scene.len() - 1]->List_rect == after.list.rows
            &&& after.selection == picker.selection
            &&& after.focus == picker.focus
            &&& after.search.text == picker.search.text
            &&& after.shown == picker.shown
        }),
{
    let inner = dialog_in(area).inside();
    let scene = picker.scene(area, local_name, theme);
    let tree = picker.tree_scene(inner, theme);
    let n = scene.len() as int;
    assert(scene[n - 3] == tree[0]);
    assert(scene[n - 1] == tree[2]);
    assert(scene[5] == picker.field_scene(inner)[0]);
    assert(scene[6] == picker.field_scene(inner)[1]);
    if picker.focus == RepositoryFocus::LocalName {
        assert(scene[7] == picker.name_scene(inner, local_name)[0]);
    }
}

/// Each field is labelled: an archive asks for the name of its package, which it needs.
pub proof fn lemma_the_fields_are_labelled(picker: RepositoryPickerView, inner: Rect, theme: Theme)
    ensures
        ({
            let labels = picker.label_scene(inner, theme);
            &&& labels.len() == 3
            &&& labels[1]->Text_lines[0][0].content == "Storage folder"@
            &&& labels[2]->Text_lines[0][0].content == "Local skill name"@
            &&& picker.selection.repository.kind != SourceKind::Archive
                ==> labels[0]->Text_lines[0][0].content == "Source name"@
            &&& picker.selection.repository.kind == SourceKind::Archive && inner.width < 56
                ==> labels[0]->Text_lines[0][0].content == "Package name *"@
            &&& picker.selection.repository.kind == SourceKind::Archive && inner.width >= 56
                ==> labels[0]->Text_lines[0][0].content == "Package name (required)"@
        }),
{
}

/// The dialog stands in the middle, at most 110 columns wide and 32 rows high; its rows are,
/// from above, the source, the folder, the search, the list, and the name.
pub proof fn lemma_where_a_repository_is_drawn(area: Rect)
    requires
        area.in_range(),
        area.width >= 114,
        area.height >= 36,
    ensures
        ({
            let rect = dialog_in(area);
            let inner = rect.inside();
            let left = rect.x - area.x;
            let right = area.x + area.width - (rect.x + rect.width);
            &&& rect.width == 110
            &&& rect.height == 32
            &&& 0 <= right - left <= 1
            &&& field_in(inner, inner.y as int).y == inner.y
            &&& field_in(inner, inner.y + 1).y == inner.y + 1
            &&& search_in(inner).y == inner.y + 2
            &&& results_in(inner).y == inner.y + 4
            &&& results_in(inner).y + results_in(inner).height == inner.y + inner.height - 1
            &&& label_width(inner) == 24
            &&& field_in(inner, inner.y as int).x == inner.x + 24
        }),
{
}

} // verus!
