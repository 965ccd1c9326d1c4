//! How wide text is on the screen, and how it is cut to fit.

use crate::geometry::monus;
use crate::text::{cat2, texts};
use unicode_segmentation::UnicodeSegmentation;
use unicode_width::UnicodeWidthStr;
use vstd::prelude::*;

verus! {

/// The number of columns that a text takes on the screen.
pub uninterp spec fn display_width(text: Seq<char>) -> nat;

/// A printable ASCII character or a line of a drawn box.
pub open spec fn is_narrow(c: char) -> bool {
    ' ' <= c <= '~' || '\u{2500}' <= c <= '\u{257f}'
}

/// `UnicodeWidthStr::width` of unicode-width: the displayed width of a text in columns.
/// Stated besides its name: a text of printable ASCII and box drawing characters, of which
/// each takes one column whatever its neighbours are, is as wide as it is long.
#[verifier::external_body]
pub(crate) fn width(text: &str) -> (r: usize)
    ensures
        r == display_width(text@),
        (forall|i: int| 0 <= i < text@.len() ==> is_narrow(#[trigger] text@[i])) ==> r
            == text@.len(),
{
    UnicodeWidthStr::width(text)
}

/// The extended grapheme clusters of a text, in order.
pub uninterp spec fn clusters(text: Seq<char>) -> Seq<Seq<char>>;

/// One text after the other.
pub open spec fn together(parts: Seq<Seq<char>>) -> Seq<char>
    decreases parts.len(),
{
    if parts.len() == 0 {
        Seq::empty()
    } else {
        together(parts.drop_last()) + parts.last()
    }
}

/// `UnicodeSegmentation::graphemes` of unicode-segmentation, with extended clusters: cuts a
/// text at its cluster boundaries. The pieces are not empty and make up the text.
#[verifier::external_body]
pub(crate) fn graphemes(text: &str) -> (r: Vec<String>)
    ensures
        texts(r@) == clusters(text@),
        together(texts(r@)) == text@,
        forall|i: int| 0 <= i < r@.len() ==> (#[trigger] r@[i])@.len() > 0,
{
    text.graphemes(true).map(|cluster| cluster.to_string()).collect()
}

/// The text in lower case.
pub uninterp spec fn lower(text: Seq<char>) -> Seq<char>;

/// `str::to_lowercase` of std: the lowercase equivalent of a text.
#[verifier::external_body]
pub(crate) fn to_lowercase(text: &str) -> (r: String)
    ensures
        r@ == lower(text@),
{
    text.to_lowercase()
}

/// The character in upper case, which may be more than one character.
pub uninterp spec fn upper(c: char) -> Seq<char>;

/// `char::to_uppercase` of std: the uppercase mapping of a character.
#[verifier::external_body]
pub(crate) fn to_uppercase(c: char) -> (r: String)
    ensures
        r@ == upper(c),
{
    c.to_uppercase().to_string()
}

/// How many of `parts` fit into `budget` columns, one after the other, until one does not.
pub open spec fn fitting(parts: Seq<Seq<char>>, budget: int) -> int
    decreases parts.len(),
{
    if parts.len() == 0 || display_width(parts[0]) > budget {
        0
    } else {
        1 + fitting(parts.skip(1), budget - display_width(parts[0]))
    }
}

pub proof fn lemma_fitting_bounds(parts: Seq<Seq<char>>, budget: int)
    ensures
        0 <= fitting(parts, budget) <= parts.len(),
    decreases parts.len(),
{
    if parts.len() > 0 && display_width(parts[0]) <= budget {
        lemma_fitting_bounds(parts.skip(1), budget - display_width(parts[0]));
    }
}

/// The columns of `parts`, each measured alone.
pub open spec fn total_width(parts: Seq<Seq<char>>) -> int
    decreases parts.len(),
{
    if parts.len() == 0 {
        0
    } else {
        total_width(parts.drop_last()) + display_width(parts.last())
    }
}

pub proof fn lemma_total_width_push(parts: Seq<Seq<char>>, part: Seq<char>)
    ensures
        total_width(parts.push(part)) == total_width(parts) + display_width(part),
{
    assert(parts.push(part).drop_last() =~= parts);
}

pub proof fn lemma_together_push(parts: Seq<Seq<char>>, part: Seq<char>)
    ensures
        together(parts.push(part)) == together(parts) + part,
{
    assert(parts.push(part).drop_last() =~= parts);
}

/// How many of the texts fit into `budget` columns.
pub fn count_fitting(parts: &Vec<String>, budget: usize) -> (r: usize)
    ensures
        r == fitting(texts(parts@), budget as int),
        r <= parts.len(),
{
    let ghost all = texts(parts@);
    let mut left: usize = budget;
    let mut i: usize = 0;
    assert(all.skip(0) =~= all);
    while i < parts.len()
        invariant
            i <= parts.len(),
            all == texts(parts@),
            fitting(all, budget as int) == i + fitting(all.skip(i as int), left as int),
        decreases parts.len() - i,
    {
        let w = width(parts[i].as_str());
        assert(all.skip(i as int)[0] == parts@[i as int]@);
        if w > left {
            return i;
        }
        left = left - w;
        i = i + 1;
        assert(all.skip(i - 1).skip(1) =~= all.skip(i as int));
    }
    i
}

/// The first `n` of the texts, as one.
pub fn together_first(parts: &Vec<String>, n: usize) -> (r: String)
    requires
        n <= parts.len(),
    ensures
        r@ == together(texts(parts@).take(n as int)),
{
    let ghost all = texts(parts@);
    let mut out = String::new();
    let mut i: usize = 0;
    assert(all.take(0) =~= Seq::empty());
    while i < n
        invariant
            i <= n <= parts.len(),
            all == texts(parts@),
            out@ == together(all.take(i as int)),
        decreases n - i,
    {
        out.append(parts[i].as_str());
        i = i + 1;
        assert(all.take(i as int) =~= all.take(i - 1).push(parts@[i - 1]@));
        proof {
            lemma_together_push(all.take(i - 1), parts@[i - 1]@);
        }
    }
    out
}

/// The texts from `from` on, as one.
pub fn together_from(parts: &Vec<String>, from: usize) -> (r: String)
    requires
        from <= parts.len(),
    ensures
        r@ == together(texts(parts@).skip(from as int)),
{
    let ghost all = texts(parts@);
    let mut out = String::new();
    let mut i: usize = from;
    assert(all.subrange(from as int, from as int) =~= Seq::empty());
    while i < parts.len()
        invariant
            from <= i <= parts.len(),
            all == texts(parts@),
            out@ == together(all.subrange(from as int, i as int)),
        decreases parts.len() - i,
    {
        out.append(parts[i].as_str());
        i = i + 1;
        assert(all.subrange(from as int, i as int) =~= all.subrange(from as int, i - 1).push(
            parts@[i - 1]@,
        ));
        proof {
            lemma_together_push(all.subrange(from as int, i - 1), parts@[i - 1]@);
        }
    }
    assert(all.subrange(from as int, all.len() as int) =~= all.skip(from as int));
    out
}

/// `text` cut to `max` columns: whole where it fits, else as many whole clusters as leave
/// room for an ellipsis.
pub open spec fn fitted(text: Seq<char>, max: int) -> Seq<char> {
    if display_width(text) <= max {
        text
    } else if max == 0 {
        Seq::empty()
    } else {
        together(clusters(text).take(fitting(clusters(text), max - 1))) + "…"@
    }
}

pub fn fit(text: &str, max: usize) -> (r: String)
    ensures
        r@ == fitted(text@, max as int),
{
    if width(text) <= max {
        return text.to_owned();
    }
    if max == 0 {
        return String::new();
    }
    let parts = graphemes(text);
    let n = count_fitting(&parts, max - 1);
    cat2(together_first(&parts, n).as_str(), "…")
}

/// `text` cut to `max` columns and filled up to them with blanks.
pub open spec fn padded(text: Seq<char>, max: int) -> Seq<char> {
    let cut = fitted(text, max);
    cut + crate::text::repeated(' ', monus(max, display_width(cut) as int))
}

pub fn pad(text: &str, max: usize) -> (r: String)
    ensures
        r@ == padded(text@, max as int),
{
    let cut = fit(text, max);
    let w = width(cut.as_str());
    let room: usize = if max >= w {
        max - w
    } else {
        0
    };
    cat2(cut.as_str(), crate::text::repeat(' ', room).as_str())
}

/// How many of `parts`, from the first on, are kept while the kept ones as one text and the
/// next one by itself fit into `budget` columns.
pub open spec fn kept_prefix(parts: Seq<Seq<char>>, n: int, budget: int) -> int
    decreases parts.len() - n,
{
    if n >= parts.len() || display_width(together(parts.take(n))) + display_width(parts[n])
        > budget {
        n
    } else {
        kept_prefix(parts, n + 1, budget)
    }
}

/// The parts in reverse order.
pub open spec fn reversed(parts: Seq<Seq<char>>) -> Seq<Seq<char>> {
    Seq::new(parts.len(), |i: int| parts[parts.len() - 1 - i])
}

/// `text` cut in its middle to `max` columns: about half of them for its start, an
/// ellipsis, and as much of its end as the rest holds.
pub open spec fn cut_in_middle(text: Seq<char>, max: int) -> Seq<char> {
    let parts = clusters(text);
    if display_width(text) <= max {
        text
    } else if max == 0 {
        Seq::empty()
    } else {
        let head = together(parts.take(kept_prefix(parts, 0, (max - 1) / 2)));
        let tail = fitting(reversed(parts), monus(max - 1, display_width(head) as int));
        head + "…"@ + together(parts.skip(parts.len() - tail))
    }
}

/// How many of `parts`, from the last one back, fit into `budget` columns.
fn count_fitting_back(parts: &Vec<String>, budget: usize) -> (r: usize)
    ensures
        r == fitting(reversed(texts(parts@)), budget as int),
        r <= parts.len(),
{
    let ghost all = reversed(texts(parts@));
    let mut left: usize = budget;
    let mut i: usize = 0;
    assert(all.skip(0) =~= all);
    while i < parts.len()
        invariant
            i <= parts.len(),
            all == reversed(texts(parts@)),
            fitting(all, budget as int) == i + fitting(all.skip(i as int), left as int),
        decreases parts.len() - i,
    {
        let w = width(parts[parts.len() - 1 - i].as_str());
        assert(all.skip(i as int)[0] == parts@[parts@.len() - 1 - i]@);
        if w > left {
            return i;
        }
        left = left - w;
        i = i + 1;
        assert(all.skip(i - 1).skip(1) =~= all.skip(i as int));
    }
    i
}

/// Fits a path into `max` columns while keeping its end. A start that measures wider
/// than the room left to it takes all the room of the end.
pub fn middle_ellipsis(text: &str, max: usize) -> (r: String)
    ensures
        r@ == cut_in_middle(text@, max as int),
{
    if width(text) <= max {
        return text.to_owned();
    }
    if max == 0 {
        return String::new();
    }
    let parts = graphemes(text);
    let ghost all = texts(parts@);
    let budget: usize = (max - 1) / 2;
    let mut head = String::new();
    let mut n: usize = 0;
    assert(all.take(0) =~= Seq::empty());
    while n < parts.len()
        invariant_except_break
            kept_prefix(all, n as int, budget as int) == kept_prefix(all, 0, budget as int),
        invariant
            n <= parts.len(),
            all == texts(parts@),
            head@ == together(all.take(n as int)),
        ensures
            n == kept_prefix(all, 0, budget as int),
        decreases parts.len() - n,
    {
        let used = width(head.as_str());
        let next = width(parts[n].as_str());
        assert(all[n as int] == parts@[n as int]@);
        if used > budget || next > budget - used {
            break;
        }
        head.append(parts[n].as_str());
        n = n + 1;
        assert(all.take(n as int) =~= all.take(n - 1).push(parts@[n - 1]@));
        proof {
            lemma_together_push(all.take(n - 1), parts@[n - 1]@);
        }
    }
    let used = width(head.as_str());
    let room: usize = if used <= max - 1 {
        max - 1 - used
    } else {
        0
    };
    let tail = count_fitting_back(&parts, room);
    let end = together_from(&parts, parts.len() - tail);
    crate::text::cat3(head.as_str(), "…", end.as_str())
}

/// A text that fits is left as it is.
pub proof fn lemma_fitting_text_is_kept(text: Seq<char>, max: int)
    requires
        display_width(text) <= max,
    ensures
        fitted(text, max) == text,
        cut_in_middle(text, max) == text,
        padded(text, max) == text + crate::text::repeated(' ', max - display_width(text)),
{
}

/// Of the parts of a text as many are kept from the front as fit: together they do, and
/// with the next one they would not.
pub proof fn lemma_as_much_as_fits(parts: Seq<Seq<char>>, budget: int)
    requires
        0 <= budget,
    ensures
        ({
            let n = fitting(parts, budget);
            &&& 0 <= n <= parts.len()
            &&& total_width(parts.take(n)) <= budget
            &&& n < parts.len() ==> total_width(parts.take(n)) + display_width(parts[n]) > budget
        }),
    decreases parts.len(),
{
    if parts.len() == 0 || display_width(parts[0]) > budget {
        assert(parts.take(0) =~= Seq::<Seq<char>>::empty());
    } else {
        let rest = parts.skip(1);
        let left = budget - display_width(parts[0]);
        lemma_as_much_as_fits(rest, left);
        let n = fitting(rest, left);
        lemma_width_from_the_front(parts.take(n + 1));
        assert(parts.take(n + 1).skip(1) =~= rest.take(n));
    }
}

proof fn lemma_width_from_the_front(parts: Seq<Seq<char>>)
    requires
        parts.len() > 0,
    ensures
        total_width(parts) == display_width(parts[0]) + total_width(parts.skip(1)),
    decreases parts.len(),
{
    if parts.len() == 1 {
        assert(parts.drop_last() =~= Seq::<Seq<char>>::empty());
        assert(parts.skip(1) =~= Seq::<Seq<char>>::empty());
    } else {
        lemma_width_from_the_front(parts.drop_last());
        assert(parts.drop_last().skip(1) =~= parts.skip(1).drop_last());
    }
}

/// A text that does not fit is cut off between two of its clusters, as late as leaves room
/// for the mark that says so.
pub proof fn lemma_a_long_text_is_marked(text: Seq<char>, max: int)
    requires
        0 < max < display_width(text),
    ensures
        ({
            let parts = clusters(text);
            let n = fitting(parts, max - 1);
            &&& fitted(text, max) == together(parts.take(n)) + "…"@
            &&& total_width(parts.take(n)) <= max - 1
            &&& n < parts.len() ==> total_width(parts.take(n)) + display_width(parts[n]) > max - 1
        }),
        fitted(text, 0) == Seq::<char>::empty(),
{
    lemma_as_much_as_fits(clusters(text), max - 1);
}

/// A text that is cut in its middle begins with its own clusters and ends with its own: the
/// mark stands between them, and both sides fit into what is left beside it.
pub proof fn lemma_both_ends_are_kept(text: Seq<char>, max: int)
    requires
        0 < max < display_width(text),
    ensures
        ({
            let parts = clusters(text);
            let n = kept_prefix(parts, 0, (max - 1) / 2);
            let head = together(parts.take(n));
            let room = monus(max - 1, display_width(head) as int);
            let m = fitting(reversed(parts), room);
            &&& cut_in_middle(text, max) == head + "…"@ + together(parts.skip(parts.len() - m))
            &&& 0 <= n <= parts.len()
            &&& n < parts.len() ==> display_width(head) + display_width(parts[n]) > (max - 1) / 2
            &&& 0 <= m <= parts.len()
            &&& total_width(reversed(parts).take(m)) <= room
        }),
{
    let parts = clusters(text);
    lemma_kept_prefix(parts, 0, (max - 1) / 2);
    let n = kept_prefix(parts, 0, (max - 1) / 2);
    let head = together(parts.take(n));
    lemma_as_much_as_fits(reversed(parts), monus(max - 1, display_width(head) as int));
}

proof fn lemma_kept_prefix(parts: Seq<Seq<char>>, n: int, budget: int)
    requires
        0 <= n <= parts.len(),
    ensures
        ({
            let m = kept_prefix(parts, n, budget);
            &&& n <= m <= parts.len()
            &&& m < parts.len() ==> display_width(together(parts.take(m))) + display_width(parts[m])
                > budget
        }),
    decreases parts.len() - n,
{
    if n < parts.len() && display_width(together(parts.take(n))) + display_width(parts[n])
        <= budget {
        lemma_kept_prefix(parts, n + 1, budget);
    }
}

} // verus!
