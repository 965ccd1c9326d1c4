//! A description in two lines: Markdown as readable text, wrapped at words where possible.

use crate::geometry::monus;
use crate::markdown::{
    drawable, drawable_clusters, from_markdown, has_control, holds_control, line_views,
    markdown_lines, span_views, TextLine, TextLineView, TextSpanView,
};
use crate::measure::{
    clusters, count_fitting, display_width, fitting, graphemes, together, together_first, width,
};
use crate::text::{
    before_last, cat2, chars_of, has_char, head_before_last, join, joined, lemma_after_last_len,
    slice_of, split_words, texts, trim_start, without_leading_white, without_trailing_white, words,
};
use vstd::prelude::*;

verus! {

// ---- plain text --------------------------------------------------------------

/// `s` without its line ends.
pub open spec fn without_breaks(s: Seq<char>) -> Seq<char>
    decreases s.len(),
{
    if s.len() == 0 {
        s
    } else if s[0] == '\n' {
        without_breaks(s.skip(1))
    } else if s.len() > 1 && s[0] == '\r' && s[1] == '\n' {
        without_breaks(s.skip(2))
    } else {
        seq![s[0]] + without_breaks(s.skip(1))
    }
}

fn drop_breaks(text: &str) -> (r: String)
    ensures
        r@ == without_breaks(text@),
{
    let chars = chars_of(text);
    let mut out = String::new();
    let mut i: usize = 0;
    assert(chars@.skip(0) =~= chars@);
    assert(out@ + without_breaks(chars@) =~= without_breaks(text@));
    while i < chars.len()
        invariant
            i <= chars.len(),
            out@ + without_breaks(chars@.skip(i as int)) == without_breaks(text@),
        decreases chars.len() - i,
    {
        let ghost rest = chars@.skip(i as int);
        assert(rest[0] == chars@[i as int]);
        assert(rest.skip(1) =~= chars@.skip(i + 1));
        if chars[i] == '\n' {
            i = i + 1;
        } else if i + 1 < chars.len() && chars[i] == '\r' && chars[i + 1] == '\n' {
            assert(rest[1] == chars@[i + 1]);
            assert(rest.skip(2) =~= chars@.skip(i + 2));
            i = i + 2;
        } else {
            proof {
                if i + 1 < chars.len() {
                    assert(rest[1] == chars@[i + 1]);
                }
                let more = without_breaks(rest.skip(1));
                assert(out@ + (seq![chars@[i as int]] + more) =~= out@.push(chars@[i as int])
                    + more);
            }
            out.push(chars[i]);
            i = i + 1;
        }
    }
    assert(chars@.skip(i as int) =~= Seq::empty());
    assert(out@ + Seq::<char>::empty() =~= out@);
    out
}

/// What the runs say.
pub open spec fn runs_text(spans: Seq<TextSpanView>) -> Seq<char>
    decreases spans.len(),
{
    if spans.len() == 0 {
        Seq::empty()
    } else {
        runs_text(spans.drop_last()) + without_breaks(spans.last().content)
    }
}

/// What the lines say, one by one.
pub open spec fn lines_text(lines: Seq<TextLineView>) -> Seq<Seq<char>> {
    lines.map_values(|l: TextLineView| runs_text(l.spans))
}

fn say_line(line: &TextLine) -> (r: String)
    ensures
        r@ == runs_text(line@.spans),
{
    let ghost all = line@.spans;
    let mut out = String::new();
    let mut i: usize = 0;
    assert(all.take(0) =~= Seq::empty());
    while i < line.spans.len()
        invariant
            i <= line.spans.len(),
            all == span_views(line.spans@),
            out@ == runs_text(all.take(i as int)),
        decreases line.spans.len() - i,
    {
        out.append(drop_breaks(line.spans[i].content.as_str()).as_str());
        i = i + 1;
        assert(all.take(i as int).drop_last() =~= all.take(i - 1));
        assert(all.take(i as int).last() == line.spans@[i - 1]@);
    }
    assert(all.take(all.len() as int) =~= all);
    out
}

fn say_lines(lines: &Vec<TextLine>) -> (r: Vec<String>)
    ensures
        texts(r@) == lines_text(line_views(lines@)),
{
    let mut out: Vec<String> = Vec::new();
    let mut i: usize = 0;
    while i < lines.len()
        invariant
            i <= lines.len(),
            texts(out@) == lines_text(line_views(lines@)).take(i as int),
        decreases lines.len() - i,
    {
        let text = say_line(&lines[i]);
        assert(texts(out@.push(text)) =~= texts(out@).push(text@));
        out.push(text);
        i = i + 1;
        assert(texts(out@) =~= lines_text(line_views(lines@)).take(i as int));
    }
    assert(texts(out@) =~= lines_text(line_views(lines@)));
    out
}

/// The words of the lines, with one blank between them.
pub open spec fn plain_words(lines: Seq<TextLineView>) -> Seq<char> {
    joined(words(joined(lines_text(lines), " "@)), " "@)
}

// ---- wrapping ----------------------------------------------------------------

/// The clusters that are shown: those with no control character in them.
pub open spec fn shown_clusters(text: Seq<char>) -> Seq<Seq<char>> {
    drawable_clusters(clusters(text))
}

/// The columns that a cluster takes: none where it cannot be drawn.
pub open spec fn shown_width(cluster: Seq<char>) -> int {
    if has_control(cluster) {
        0
    } else {
        display_width(cluster) as int
    }
}

/// How many clusters, from the first on, fit into `columns` columns.
pub open spec fn shown_fitting(parts: Seq<Seq<char>>, columns: int) -> int
    decreases parts.len(),
{
    if parts.len() == 0 || shown_width(parts[0]) > columns {
        0
    } else {
        1 + shown_fitting(parts.skip(1), columns - shown_width(parts[0]))
    }
}

fn count_shown(parts: &Vec<String>, columns: usize) -> (r: usize)
    ensures
        r == shown_fitting(texts(parts@), columns as int),
        r <= parts.len(),
{
    let ghost all = texts(parts@);
    let mut left: usize = columns;
    let mut i: usize = 0;
    assert(all.skip(0) =~= all);
    while i < parts.len()
        invariant
            i <= parts.len(),
            all == texts(parts@),
            shown_fitting(all, columns as int) == i + shown_fitting(
                all.skip(i as int),
                left as int,
            ),
        decreases parts.len() - i,
    {
        assert(all.skip(i as int)[0] == parts@[i as int]@);
        let w: usize = if holds_control(parts[i].as_str()) {
            0
        } else {
            width(parts[i].as_str())
        };
        if w > left {
            return i;
        }
        left = left - w;
        i = i + 1;
        assert(all.skip(i - 1).skip(1) =~= all.skip(i as int));
    }
    i
}

/// The first line, before words are considered: the clusters that fit, each of them whole.
pub open spec fn first_line(plain: Seq<char>, columns: int) -> Seq<char> {
    let parts = clusters(plain);
    together(parts.take(shown_fitting(parts, columns)))
}

proof fn lemma_together_begins(parts: Seq<Seq<char>>, n: int)
    requires
        0 <= n <= parts.len(),
    ensures
        together(parts.take(n)).len() <= together(parts).len(),
        together(parts).take(together(parts.take(n)).len() as int) == together(parts.take(n)),
    decreases parts.len(),
{
    if n == parts.len() {
        assert(parts.take(n) =~= parts);
        assert(together(parts).take(together(parts).len() as int) =~= together(parts));
    } else {
        lemma_together_begins(parts.drop_last(), n);
        assert(parts.drop_last().take(n) =~= parts.take(n));
        let m = together(parts.take(n)).len() as int;
        assert(together(parts).take(m) =~= together(parts.drop_last()).take(m));
    }
}

/// Where the first line ends: at the last blank in it, where that leaves half of the line.
pub open spec fn word_end(line: Seq<char>, columns: int) -> Seq<char> {
    if line.contains(' ') && display_width(before_last(line, ' ')) >= columns / 2 {
        before_last(line, ' ')
    } else {
        line
    }
}

/// As much of `rest` as fits, with an ellipsis where that is not all.
pub open spec fn second_line(rest: Seq<char>, columns: int) -> Seq<char> {
    if display_width(rest) <= columns {
        rest
    } else {
        let shown = shown_clusters(rest);
        together(shown.take(fitting(shown, monus(columns, 1)))) + "…"@
    }
}

/// The two lines that a text is shown in.
pub open spec fn two_lines(plain: Seq<char>, columns: int) -> (Seq<char>, Seq<char>) {
    let whole = first_line(plain, columns);
    if columns == 0 {
        (""@, ""@)
    } else if whole.len() == plain.len() {
        (plain, ""@)
    } else {
        let line = word_end(whole, columns);
        (
            without_trailing_white(line),
            second_line(without_leading_white(plain.skip(line.len() as int)), columns),
        )
    }
}

fn trim_end(text: &str) -> (r: String)
    ensures
        r@ == without_trailing_white(text@),
{
    let chars = chars_of(text);
    let mut to: usize = chars.len();
    assert(chars@.take(chars@.len() as int) =~= chars@);
    while to > 0 && crate::text::is_white_space(chars[to - 1])
        invariant
            to <= chars.len(),
            without_trailing_white(text@) == without_trailing_white(chars@.take(to as int)),
        decreases to,
    {
        assert(chars@.take(to as int).drop_last() =~= chars@.take(to - 1));
        to = to - 1;
    }
    proof {
        if to > 0 {
            assert(chars@.take(to as int).last() == chars@[to - 1]);
        }
    }
    assert(chars@.subrange(0, to as int) =~= chars@.take(to as int));
    slice_of(&chars, 0, to)
}

fn cut_second(rest: &str, columns: usize) -> (r: String)
    ensures
        r@ == second_line(rest@, columns as int),
{
    if width(rest) <= columns {
        return rest.to_owned();
    }
    let parts = drawable(rest);
    let n = count_fitting(&parts, columns.saturating_sub(1));
    cat2(together_first(&parts, n).as_str(), "…")
}

fn cut_word(line: &str, columns: usize) -> (r: String)
    ensures
        r@ == word_end(line@, columns as int),
        r@.len() <= line@.len(),
        r@ == line@.take(r@.len() as int),
{
    assert(line@.take(line@.len() as int) =~= line@);
    if !has_char(line, ' ') {
        return line.to_owned();
    }
    let head = head_before_last(line, ' ');
    proof {
        lemma_after_last_len(line@, ' ');
    }
    assert(head@ =~= line@.take(head@.len() as int));
    if width(head.as_str()) >= columns / 2 {
        head
    } else {
        line.to_owned()
    }
}

/// The two lines that a text is shown in.
pub fn wrap_two(plain: &str, columns: usize) -> (r: (String, String))
    ensures
        (r.0@, r.1@) == two_lines(plain@, columns as int),
{
    if columns == 0 {
        return ("".to_owned(), "".to_owned());
    }
    let parts = graphemes(plain);
    let n = count_shown(&parts, columns);
    let whole = together_first(&parts, n);
    let chars = chars_of(plain);
    proof {
        lemma_together_begins(texts(parts@), n as int);
    }
    if chars_of(whole.as_str()).len() == chars.len() {
        return (plain.to_owned(), "".to_owned());
    }
    let first = cut_word(whole.as_str(), columns);
    let from = chars_of(first.as_str()).len();
    let rest = slice_of(&chars, from, chars.len());
    assert(chars@.subrange(from as int, chars@.len() as int) =~= plain@.skip(from as int));
    (trim_end(first.as_str()), cut_second(trim_start(rest.as_str()).as_str(), columns))
}

/// The words of Markdown lines, with one blank between them.
pub fn words_of(lines: &Vec<TextLine>) -> (r: String)
    ensures
        r@ == plain_words(line_views(lines@)),
{
    let text = join(&say_lines(lines), " ");
    join(&split_words(text.as_str()), " ")
}

/// Markdown as readable text in two lines, wrapped at words where possible. What has no words
/// wraps between clusters, never inside of one.
pub fn summary_lines(markdown: &str, columns: usize) -> (r: (String, String))
    ensures
        (r.0@, r.1@) == two_lines(plain_words(markdown_lines(markdown@)), columns as int),
{
    let plain = words_of(&from_markdown(markdown));
    wrap_two(plain.as_str(), columns)
}

/// A text that fits in one line is not cut, and nothing is left for the second.
pub proof fn lemma_short_text_takes_one_line(plain: Seq<char>, columns: int)
    requires
        columns > 0,
        together(clusters(plain)) == plain,
        shown_fitting(clusters(plain), columns) == clusters(plain).len(),
    ensures
        two_lines(plain, columns) == (plain, ""@),
{
    assert(clusters(plain).take(clusters(plain).len() as int) =~= clusters(plain));
}

/// The columns of some clusters, one by one.
pub open spec fn shown_total(parts: Seq<Seq<char>>) -> int
    decreases parts.len(),
{
    if parts.len() == 0 {
        0
    } else {
        shown_width(parts[0]) + shown_total(parts.skip(1))
    }
}

/// A line breaks between clusters only, never inside of one: what stands in front of the
/// break are whole clusters that fit, and the next one would not.
pub proof fn lemma_lines_break_between_clusters(plain: Seq<char>, columns: int)
    requires
        0 <= columns,
    ensures
        ({
            let parts = clusters(plain);
            let n = shown_fitting(parts, columns);
            &&& 0 <= n <= parts.len()
            &&& first_line(plain, columns) == together(parts.take(n))
            &&& shown_total(parts.take(n)) <= columns
            &&& n < parts.len() ==> shown_total(parts.take(n)) + shown_width(parts[n]) > columns
        }),
{
    lemma_fills(clusters(plain), columns);
}

proof fn lemma_fills(parts: Seq<Seq<char>>, columns: int)
    requires
        0 <= columns,
    ensures
        0 <= shown_fitting(parts, columns) <= parts.len(),
        shown_total(parts.take(shown_fitting(parts, columns))) <= columns,
        shown_fitting(parts, columns) < parts.len() ==> shown_total(
            parts.take(shown_fitting(parts, columns)),
        ) + shown_width(parts[shown_fitting(parts, columns)]) > columns,
    decreases parts.len(),
{
    let n = shown_fitting(parts, columns);
    if parts.len() > 0 && shown_width(parts[0]) <= columns {
        lemma_fills(parts.skip(1), columns - shown_width(parts[0]));
        assert(parts.take(n).skip(1) =~= parts.skip(1).take(n - 1));
        assert(parts.take(n)[0] == parts[0]);
    } else {
        assert(parts.take(0) =~= Seq::empty());
    }
}

/// Line ends are taken out of a text and nothing else is: its other characters stay in their
/// order, a carriage return too where no line ends after it.
pub proof fn lemma_only_line_ends_are_taken_out(s: Seq<char>)
    requires
        !s.contains('\r'),
    ensures
        without_breaks(s) == s.filter(|c: char| c != '\n'),
    decreases s.len(),
{
    let kept = |c: char| c != '\n';
    if s.len() == 0 {
        reveal(Seq::filter);
    } else {
        let head = seq![s[0]];
        let rest = s.skip(1);
        assert(s =~= head + rest);
        assert(s.contains(s[0]));
        assert(!rest.contains('\r')) by {
            if rest.contains('\r') {
                let i = choose|i: int| 0 <= i < rest.len() && rest[i] == '\r';
                assert(s[i + 1] == '\r');
            }
        }
        lemma_only_line_ends_are_taken_out(rest);
        Seq::filter_distributes_over_add(head, rest, kept);
        assert(head.filter(kept) =~= if kept(s[0]) {
            head
        } else {
            Seq::empty()
        }) by {
            reveal_with_fuel(Seq::filter, 2);
            assert(head.drop_last() =~= Seq::<char>::empty());
        }
        if !kept(s[0]) {
            assert(Seq::<char>::empty() + rest.filter(kept) =~= rest.filter(kept));
        }
    }
}

/// Where a text does not fit into one line, the first ends at its last blank if that leaves
/// half of the line, and else where there is no more room; the second goes on from there.
pub proof fn lemma_where_the_second_line_begins(plain: Seq<char>, columns: int)
    requires
        columns > 0,
        first_line(plain, columns).len() != plain.len(),
    ensures
        ({
            let whole = first_line(plain, columns);
            let head = before_last(whole, ' ');
            let lines = two_lines(plain, columns);
            let at_blank = whole.contains(' ') && display_width(head) >= columns / 2;
            let line = if at_blank {
                head
            } else {
                whole
            };
            let rest = without_leading_white(plain.skip(line.len() as int));
            &&& lines.0 == without_trailing_white(line)
            &&& display_width(rest) <= columns ==> lines.1 == rest
            &&& display_width(rest) > columns ==> lines.1.len() > 0 && lines.1.last() == '…'
        }),
        two_lines(plain, 0) == (""@, ""@),
{
    reveal_strlit("…");
    let whole = first_line(plain, columns);
    let line = word_end(whole, columns);
    let rest = without_leading_white(plain.skip(line.len() as int));
    if display_width(rest) > columns {
        let parts = shown_clusters(rest);
        let head = together(parts.take(fitting(parts, monus(columns, 1))));
        assert((head + "…"@).last() == '…');
    }
}

/// The words of the lines are those of their texts, one blank between each two.
pub proof fn lemma_the_words_of_lines(lines: Seq<TextLineView>, i: int)
    requires
        0 <= i < lines.len(),
    ensures
        lines_text(lines).len() == lines.len(),
        lines_text(lines)[i] == runs_text(lines[i].spans),
        plain_words(lines) == joined(words(joined(lines_text(lines), " "@)), " "@),
{
}

} // verus!
