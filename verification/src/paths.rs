//! Paths, part by part.

use crate::text::{
    cat2, list_before, list_precedes, pieces, same_text, same_texts, split, texts,
};
use vstd::prelude::*;

verus! {

/// The part that the `i`-th piece of a path stands for. An empty piece is the root where it
/// comes first and something follows, and nothing elsewhere; a dot is a part only where it
/// comes first. Names are written behind a slash: so the texts are ordered as the parts
/// are, the root first, then `.`, then `..`, then the names.
pub open spec fn part_of(all: Seq<Seq<char>>, i: int) -> Option<Seq<char>> {
    let piece = all[i];
    if piece.len() == 0 {
        if i == 0 && all.len() > 1 {
            Some(""@)
        } else {
            None
        }
    } else if piece == "."@ {
        if i == 0 {
            Some("."@)
        } else {
            None
        }
    } else if piece == ".."@ {
        Some(".."@)
    } else {
        Some("/"@ + piece)
    }
}

/// The parts that the first `n` pieces of a path stand for.
pub open spec fn parts_of(all: Seq<Seq<char>>, n: int) -> Seq<Seq<char>>
    decreases n,
{
    if n <= 0 {
        Seq::empty()
    } else {
        match part_of(all, n - 1) {
            Some(part) => parts_of(all, n - 1).push(part),
            None => parts_of(all, n - 1),
        }
    }
}

/// The parts of a path. Two paths are the same where their parts are: slashes that are
/// repeated or come last make no difference, nor does a dot in between.
pub open spec fn path_parts(path: Seq<char>) -> Seq<Seq<char>> {
    let all = pieces(path, "/"@);
    parts_of(all, all.len() as int)
}

/// A path comes before another one where its first part that differs does.
pub open spec fn path_precedes(a: Seq<char>, b: Seq<char>) -> bool {
    list_precedes(path_parts(a), path_parts(b))
}

fn take_part(all: &Vec<String>, i: usize) -> (r: Option<String>)
    requires
        i < all.len(),
    ensures
        crate::text::said(r) == part_of(texts(all@), i as int),
{
    let piece = all[i].as_str();
    proof {
        reveal_strlit("");
        reveal_strlit(".");
        reveal_strlit("..");
        assert(texts(all@)[i as int] == piece@);
        assert(piece@.len() == 0 <==> piece@ =~= ""@);
    }
    if same_text(piece, "") {
        if i == 0 && all.len() > 1 {
            Some("".to_owned())
        } else {
            None
        }
    } else if same_text(piece, ".") {
        if i == 0 {
            Some(".".to_owned())
        } else {
            None
        }
    } else if same_text(piece, "..") {
        Some("..".to_owned())
    } else {
        Some(cat2("/", piece))
    }
}

pub fn split_path(path: &str) -> (r: Vec<String>)
    ensures
        texts(r@) == path_parts(path@),
{
    proof {
        reveal_strlit("/");
    }
    let all = split(path, "/");
    let mut out: Vec<String> = Vec::new();
    let mut i: usize = 0;
    assert(texts(out@) =~= parts_of(texts(all@), 0));
    while i < all.len()
        invariant
            i <= all.len(),
            texts(out@) == parts_of(texts(all@), i as int),
        decreases all.len() - i,
    {
        match take_part(&all, i) {
            Some(part) => {
                assert(texts(out@.push(part)) =~= texts(out@).push(part@));
                out.push(part);
            },
            None => {},
        }
        i = i + 1;
    }
    out
}

pub fn same_path(a: &str, b: &str) -> (r: bool)
    ensures
        r == (path_parts(a@) == path_parts(b@)),
{
    same_texts(&split_path(a), &split_path(b))
}

pub fn path_before(a: &str, b: &str) -> (r: bool)
    ensures
        r == path_precedes(a@, b@),
{
    list_before(&split_path(a), &split_path(b))
}

// ---- laws --------------------------------------------------------------------

/// A slash at the end of a path that names something makes no difference.
pub proof fn lemma_a_slash_at_the_end_makes_no_difference(path: Seq<char>)
    requires
        path.len() > 0,
    ensures
        path_parts(path + "/"@) == path_parts(path),
{
    reveal_strlit("/");
    let all = pieces(path, "/"@);
    lemma_pieces_with_a_slash(path);
    let more = all.push(Seq::empty());
    crate::text::lemma_pieces_make_the_text(path, "/"@);
    if all.len() == 1 {
        assert(all =~= seq![all[0]]);
        assert(all[0] == path);
    }
    lemma_parts_of_a_longer_path(all, more, all.len() as int);
    assert(part_of(more, all.len() as int) is None);
}

proof fn lemma_parts_of_a_longer_path(all: Seq<Seq<char>>, more: Seq<Seq<char>>, n: int)
    requires
        0 <= n <= all.len(),
        more == all.push(Seq::empty()),
        all.len() > 0,
        all.len() > 1 || all[0].len() > 0,
    ensures
        parts_of(more, n) == parts_of(all, n),
    decreases n,
{
    if n > 0 {
        lemma_parts_of_a_longer_path(all, more, n - 1);
        assert(more[n - 1] == all[n - 1]);
    }
}

proof fn lemma_pieces_with_a_slash(path: Seq<char>)
    ensures
        pieces(path + "/"@, "/"@) == pieces(path, "/"@).push(Seq::empty()),
    decreases path.len(),
{
    reveal_strlit("/");
    let longer = path + "/"@;
    let slash = "/"@;
    crate::text::lemma_a_cut_can_be_undone(path, slash);
    match crate::text::cut(path, slash) {
        Some((head, rest)) => {
            assert(head + slash + rest == path);
            let n = head.len() as int;
            assert(longer.subrange(n, n + 1) =~= slash) by {
                assert(longer[n] == path[n]);
                assert(path[n] == (head + slash + rest)[n]);
            }
            assert forall|i: int| 0 <= i < n implies !crate::text::stands_at(longer, slash, i) by {
                if crate::text::stands_at(longer, slash, i) {
                    assert(longer.subrange(i, i + 1)[0] == slash[0]);
                    assert(longer[i] == (head + slash + rest)[i]);
                    assert(head.subrange(i, i + 1) =~= slash);
                    assert(crate::text::stands_at(head, slash, i));
                }
            }
            crate::text::lemma_found(longer, slash, n);
            assert(longer.take(n) =~= head) by {
                assert(longer =~= head + slash + rest + slash);
            }
            assert(longer.skip(n + 1) =~= rest + slash) by {
                assert(longer =~= head + slash + rest + slash);
            }
            lemma_pieces_with_a_slash(rest);
            assert(rest.len() < path.len());
            assert(seq![head] + pieces(rest, slash).push(Seq::empty()) =~= (seq![head] + pieces(
                rest,
                slash,
            )).push(Seq::empty()));
        },
        None => {
            let n = path.len() as int;
            assert(longer.subrange(n, n + 1) =~= slash);
            assert forall|i: int| 0 <= i < n implies !crate::text::stands_at(longer, slash, i) by {
                if crate::text::stands_at(longer, slash, i) {
                    assert(longer.subrange(i, i + 1)[0] == slash[0]);
                    assert(path.subrange(i, i + 1) =~= slash);
                    assert(crate::text::stands_at(path, slash, i));
                }
            }
            crate::text::lemma_found(longer, slash, n);
            assert(longer.take(n) =~= path);
            assert(longer.skip(n + 1) =~= Seq::<char>::empty());
            let none = Seq::<char>::empty();
            assert forall|i: int| !crate::text::stands_at(none, slash, i) by {}
            crate::text::lemma_not_found(none, slash);
            assert(pieces(none, slash) =~= seq![none]);
            assert(pieces(longer, slash) =~= seq![path] + seq![none]);
            assert(pieces(path, slash) =~= seq![path]);
        },
    }
}

/// What the pieces of a path stand for: an empty one the root in front and nothing else, a
/// dot itself in front and nothing else, two dots themselves, and every name itself.
pub proof fn lemma_what_pieces_stand_for(all: Seq<Seq<char>>, i: int)
    requires
        0 <= i < all.len(),
    ensures
        all[i].len() == 0 && i > 0 ==> part_of(all, i) is None,
        all[i].len() == 0 && i == 0 && all.len() > 1 ==> part_of(all, i) == Some(""@),
        all[i] == "."@ && i > 0 ==> part_of(all, i) is None,
        all[i] == "."@ && i == 0 ==> part_of(all, i) == Some("."@),
        all[i] == ".."@ ==> part_of(all, i) == Some(".."@),
        all[i].len() > 0 && all[i] != "."@ && all[i] != ".."@ ==> part_of(all, i) == Some(
            "/"@ + all[i],
        ),
{
    reveal_strlit(".");
    reveal_strlit("..");
    assert("."@.len() == 1);
    assert(".."@.len() == 2);
}

/// Paths with other names in the same places are other paths.
pub proof fn lemma_other_names_are_other_paths(a: Seq<Seq<char>>, b: Seq<Seq<char>>, i: int)
    requires
        0 <= i < a.len(),
        i < b.len(),
        a[i].len() > 0,
        a[i] != "."@,
        a[i] != ".."@,
        b[i].len() > 0,
        b[i] != "."@,
        b[i] != ".."@,
        a[i] != b[i],
    ensures
        part_of(a, i) != part_of(b, i),
{
    reveal_strlit("/");
    if "/"@ + a[i] == "/"@ + b[i] {
        assert(("/"@ + a[i]).skip(1) =~= a[i]);
        assert(("/"@ + b[i]).skip(1) =~= b[i]);
    }
}

} // verus!
