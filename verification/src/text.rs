//! Text as sequences of characters.

use vstd::prelude::*;

verus! {

/// `String::push` of std: the character is appended.
pub assume_specification[ String::push ](s: &mut String, ch: char)
    ensures
        final(s)@ == old(s)@.push(ch),
;

/// The characters of `s`.
pub fn chars_of(s: &str) -> (r: Vec<char>)
    ensures
        r@ == s@,
{
    let mut out: Vec<char> = Vec::new();
    for c in it: s.chars()
        invariant
            out@ == it.seq().take(it.index()),
            it.seq() == s@,
    {
        out.push(c);
        assert(out@ =~= it.seq().take(it.index() + 1));
    }
    assert(out@ =~= s@);
    out
}

/// The string made of `chars`.
pub fn string_of(chars: &Vec<char>) -> (r: String)
    ensures
        r@ == chars@,
{
    let mut out = String::new();
    let mut i: usize = 0;
    while i < chars.len()
        invariant
            i <= chars.len(),
            out@ == chars@.take(i as int),
        decreases chars.len() - i,
    {
        out.push(chars[i]);
        i = i + 1;
        assert(out@ =~= chars@.take(i as int));
    }
    assert(out@ =~= chars@);
    out
}

/// Whether two texts hold the same characters.
pub fn same_text(a: &str, b: &str) -> (r: bool)
    ensures
        r == (a@ == b@),
{
    a.to_owned() == b.to_owned()
}

/// A copy of a list of texts.
pub fn clone_all(list: &Vec<String>) -> (r: Vec<String>)
    ensures
        r@ == list@,
{
    let mut out: Vec<String> = Vec::new();
    let mut i: usize = 0;
    while i < list.len()
        invariant
            i <= list.len(),
            out@ == list@.take(i as int),
        decreases list.len() - i,
    {
        out.push(list[i].clone());
        i = i + 1;
        assert(out@ =~= list@.take(i as int));
    }
    assert(out@ =~= list@);
    out
}

/// What a list of texts says, text by text.
pub open spec fn texts(list: Seq<String>) -> Seq<Seq<char>> {
    list.map_values(|s: String| s@)
}

/// Whether two lists of texts say the same.
pub fn same_texts(a: &Vec<String>, b: &Vec<String>) -> (r: bool)
    ensures
        r == (texts(a@) == texts(b@)),
{
    if a.len() != b.len() {
        assert(texts(a@).len() != texts(b@).len());
        return false;
    }
    let mut i: usize = 0;
    while i < a.len()
        invariant
            i <= a.len(),
            a.len() == b.len(),
            forall|k: int| 0 <= k < i ==> #[trigger] a@[k]@ == b@[k]@,
        decreases a.len() - i,
    {
        if a[i] != b[i] {
            assert(texts(a@)[i as int] != texts(b@)[i as int]);
            return false;
        }
        i = i + 1;
    }
    assert(texts(a@) =~= texts(b@));
    true
}

/// What an optional text says.
pub open spec fn said(text: Option<String>) -> Option<Seq<char>> {
    match text {
        Some(s) => Some(s@),
        None => None,
    }
}

/// Whether two optional texts say the same.
pub fn same_optional(a: &Option<String>, b: &Option<String>) -> (r: bool)
    ensures
        r == (said(*a) == said(*b)),
{
    match (a, b) {
        (Some(x), Some(y)) => *x == *y,
        (None, None) => true,
        _ => false,
    }
}

/// A copy of an optional text.
pub fn clone_optional(text: &Option<String>) -> (r: Option<String>)
    ensures
        r == *text,
{
    match text {
        Some(s) => Some(s.clone()),
        None => None,
    }
}

/// The characters of `chars` from `from` up to `to`.
pub fn slice_of(chars: &Vec<char>, from: usize, to: usize) -> (r: String)
    requires
        from <= to <= chars.len(),
    ensures
        r@ == chars@.subrange(from as int, to as int),
{
    let mut out = String::new();
    let mut i: usize = from;
    while i < to
        invariant
            from <= i <= to <= chars.len(),
            out@ == chars@.subrange(from as int, i as int),
        decreases to - i,
    {
        out.push(chars[i]);
        i = i + 1;
        assert(out@ =~= chars@.subrange(from as int, i as int));
    }
    out
}

// ---- putting texts together ------------------------------------------------

pub fn cat2(a: &str, b: &str) -> (r: String)
    ensures
        r@ == a@ + b@,
{
    let mut out = a.to_owned();
    out.append(b);
    out
}

pub fn cat3(a: &str, b: &str, c: &str) -> (r: String)
    ensures
        r@ == a@ + b@ + c@,
{
    let mut out = a.to_owned();
    out.append(b);
    out.append(c);
    out
}

pub fn cat4(a: &str, b: &str, c: &str, d: &str) -> (r: String)
    ensures
        r@ == a@ + b@ + c@ + d@,
{
    let mut out = a.to_owned();
    out.append(b);
    out.append(c);
    out.append(d);
    out
}

pub fn cat5(a: &str, b: &str, c: &str, d: &str, e: &str) -> (r: String)
    ensures
        r@ == a@ + b@ + c@ + d@ + e@,
{
    let mut out = a.to_owned();
    out.append(b);
    out.append(c);
    out.append(d);
    out.append(e);
    out
}

pub fn cat6(a: &str, b: &str, c: &str, d: &str, e: &str, f: &str) -> (r: String)
    ensures
        r@ == a@ + b@ + c@ + d@ + e@ + f@,
{
    let mut out = a.to_owned();
    out.append(b);
    out.append(c);
    out.append(d);
    out.append(e);
    out.append(f);
    out
}

pub fn cat7(a: &str, b: &str, c: &str, d: &str, e: &str, f: &str, g: &str) -> (r: String)
    ensures
        r@ == a@ + b@ + c@ + d@ + e@ + f@ + g@,
{
    let mut out = cat6(a, b, c, d, e, f);
    out.append(g);
    out
}

/// The texts of `list`, with `separator` between them.
pub open spec fn joined(list: Seq<Seq<char>>, separator: Seq<char>) -> Seq<char>
    decreases list.len(),
{
    if list.len() == 0 {
        Seq::empty()
    } else if list.len() == 1 {
        list[0]
    } else {
        joined(list.drop_last(), separator) + separator + list.last()
    }
}

pub fn join(list: &Vec<String>, separator: &str) -> (r: String)
    ensures
        r@ == joined(texts(list@), separator@),
{
    let mut out = String::new();
    let mut i: usize = 0;
    while i < list.len()
        invariant
            i <= list.len(),
            out@ == joined(texts(list@).take(i as int), separator@),
        decreases list.len() - i,
    {
        let ghost before = texts(list@).take(i as int);
        let ghost after = texts(list@).take(i + 1);
        assert(after.drop_last() =~= before);
        assert(after.last() == list@[i as int]@);
        if i > 0 {
            out.append(separator);
        }
        out.append(list[i].as_str());
        if i == 0 {
            assert(after[0] == list@[0]@);
            assert(out@ =~= list@[0]@);
        }
        i = i + 1;
    }
    assert(texts(list@).take(list@.len() as int) =~= texts(list@));
    out
}

/// `n` times the character `c`.
pub open spec fn repeated(c: char, n: int) -> Seq<char> {
    Seq::new(n as nat, |i: int| c)
}

pub fn repeat(c: char, n: usize) -> (r: String)
    ensures
        r@ == repeated(c, n as int),
{
    let mut out = String::new();
    let mut i: usize = 0;
    while i < n
        invariant
            i <= n,
            out@ == repeated(c, i as int),
        decreases n - i,
    {
        out.push(c);
        i = i + 1;
        assert(out@ =~= repeated(c, i as int));
    }
    out
}

// ---- numbers ---------------------------------------------------------------

pub open spec fn digit(n: int) -> char {
    if n == 0 {
        '0'
    } else if n == 1 {
        '1'
    } else if n == 2 {
        '2'
    } else if n == 3 {
        '3'
    } else if n == 4 {
        '4'
    } else if n == 5 {
        '5'
    } else if n == 6 {
        '6'
    } else if n == 7 {
        '7'
    } else if n == 8 {
        '8'
    } else {
        '9'
    }
}

fn digit_of(n: usize) -> (r: char)
    ensures
        r == digit(n as int),
{
    match n {
        0 => '0',
        1 => '1',
        2 => '2',
        3 => '3',
        4 => '4',
        5 => '5',
        6 => '6',
        7 => '7',
        8 => '8',
        _ => '9',
    }
}

/// `n` in decimal digits.
pub open spec fn numeral(n: int) -> Seq<char>
    decreases n,
{
    if n < 10 {
        seq![digit(n)]
    } else {
        numeral(n / 10).push(digit(n % 10))
    }
}

pub fn decimal(n: usize) -> (r: String)
    ensures
        r@ == numeral(n as int),
    decreases n,
{
    if n < 10 {
        let mut out = String::new();
        out.push(digit_of(n));
        assert(out@ =~= seq![digit(n as int)]);
        out
    } else {
        let mut out = decimal(n / 10);
        out.push(digit_of(n % 10));
        out
    }
}

/// The value of a decimal digit.
pub open spec fn digit_value(c: char) -> Option<int> {
    if '0' <= c <= '9' {
        Some(c as int - '0' as int)
    } else {
        None
    }
}

/// The number that a text of digits writes, if it is one.
pub open spec fn digits_value(s: Seq<char>) -> Option<int>
    decreases s.len(),
{
    if s.len() == 0 {
        Some(0)
    } else {
        match (digits_value(s.drop_last()), digit_value(s.last())) {
            (Some(head), Some(d)) => Some(head * 10 + d),
            _ => None,
        }
    }
}

/// The number that a text writes: digits, a plus sign in front of them or not,
/// no more than a `usize` holds.
pub open spec fn parsed(s: Seq<char>) -> Option<usize> {
    let digits = if s.len() > 0 && s[0] == '+' {
        s.skip(1)
    } else {
        s
    };
    match digits_value(digits) {
        Some(n) => if digits.len() > 0 && n <= usize::MAX {
            Some(n as usize)
        } else {
            None
        },
        None => None,
    }
}

proof fn lemma_digits_value_grows(s: Seq<char>, k: int)
    requires
        0 <= k <= s.len(),
    ensures
        digits_value(s) is Some ==> digits_value(s.take(k)) is Some && 0 <= digits_value(
            s.take(k),
        )->0 <= digits_value(s)->0,
    decreases s.len(),
{
    if s.len() == 0 {
        assert(s.take(k) =~= s);
    } else if k == s.len() {
        assert(s.take(k) =~= s);
        lemma_digits_value_grows(s.drop_last(), s.len() - 1);
        assert(s.drop_last().take(s.len() - 1) =~= s.drop_last());
    } else {
        lemma_digits_value_grows(s.drop_last(), k);
        assert(s.drop_last().take(k) =~= s.take(k));
    }
}

pub fn parse_number(text: &str) -> (r: Option<usize>)
    ensures
        r == parsed(text@),
{
    let chars = chars_of(text);
    let from: usize = if chars.len() > 0 && chars[0] == '+' {
        1
    } else {
        0
    };
    let ghost digits = if text@.len() > 0 && text@[0] == '+' {
        text@.skip(1)
    } else {
        text@
    };
    assert(digits =~= chars@.skip(from as int));
    if from == chars.len() {
        return None;
    }
    let mut value: usize = 0;
    let mut i: usize = from;
    while i < chars.len()
        invariant
            from <= i <= chars.len(),
            from < chars.len(),
            digits == chars@.skip(from as int),
            chars@ == text@,
            parsed(text@) == match digits_value(digits) {
                Some(n) => if digits.len() > 0 && n <= usize::MAX {
                    Some(n as usize)
                } else {
                    None
                },
                None => None,
            },
            digits_value(digits.take(i - from)) == Some(value as int),
        decreases chars.len() - i,
    {
        let c = chars[i];
        proof {
            assert(digits.take(i - from + 1).drop_last() =~= digits.take(i - from));
            assert(digits.take(i - from + 1).last() == c);
            lemma_digits_value_grows(digits, i - from + 1);
        }
        if !('0' <= c && c <= '9') {
            return None;
        }
        let d: usize = (c as u32 - '0' as u32) as usize;
        if value > (usize::MAX - d) / 10 {
            assert(value * 10 + d > usize::MAX);
            return None;
        }
        value = value * 10 + d;
        i = i + 1;
    }
    assert(digits.take(chars.len() - from) =~= digits);
    Some(value)
}

// ---- white space -----------------------------------------------------------

/// The characters that Unicode counts as white space.
pub open spec fn is_white(c: char) -> bool {
    ||| '\u{9}' <= c <= '\u{d}'
    ||| c == ' '
    ||| c == '\u{85}'
    ||| c == '\u{a0}'
    ||| c == '\u{1680}'
    ||| '\u{2000}' <= c <= '\u{200a}'
    ||| c == '\u{2028}'
    ||| c == '\u{2029}'
    ||| c == '\u{202f}'
    ||| c == '\u{205f}'
    ||| c == '\u{3000}'
}

pub fn is_white_space(c: char) -> (r: bool)
    ensures
        r == is_white(c),
{
    ('\u{9}' <= c && c <= '\u{d}') || c == ' ' || c == '\u{85}' || c == '\u{a0}' || c == '\u{1680}'
        || ('\u{2000}' <= c && c <= '\u{200a}') || c == '\u{2028}' || c == '\u{2029}' || c
        == '\u{202f}' || c == '\u{205f}' || c == '\u{3000}'
}

/// `s` without the white space in front.
pub open spec fn without_leading_white(s: Seq<char>) -> Seq<char>
    decreases s.len(),
{
    if s.len() > 0 && is_white(s[0]) {
        without_leading_white(s.skip(1))
    } else {
        s
    }
}

/// `s` without the white space behind.
pub open spec fn without_trailing_white(s: Seq<char>) -> Seq<char>
    decreases s.len(),
{
    if s.len() > 0 && is_white(s.last()) {
        without_trailing_white(s.drop_last())
    } else {
        s
    }
}

/// `s` without the white space around it.
pub open spec fn trimmed(s: Seq<char>) -> Seq<char> {
    without_trailing_white(without_leading_white(s))
}

proof fn lemma_leading_white(s: Seq<char>)
    ensures
        without_leading_white(s).len() > 0 ==> !is_white(without_leading_white(s)[0]),
    decreases s.len(),
{
    if s.len() > 0 && is_white(s[0]) {
        lemma_leading_white(s.skip(1));
    }
}

proof fn lemma_trailing_white(s: Seq<char>)
    ensures
        without_trailing_white(s).len() > 0 ==> !is_white(without_trailing_white(s).last())
            && without_trailing_white(s)[0] == s[0],
    decreases s.len(),
{
    if s.len() > 0 && is_white(s.last()) {
        lemma_trailing_white(s.drop_last());
    }
}

/// Trimming a text again changes nothing.
pub proof fn lemma_trimmed_is_settled(s: Seq<char>)
    ensures
        trimmed(trimmed(s)) == trimmed(s),
{
    lemma_leading_white(s);
    lemma_trailing_white(without_leading_white(s));
}

/// Where `chars` has its first character that is not white space.
fn first_dark(chars: &Vec<char>) -> (r: usize)
    ensures
        r <= chars.len(),
        without_leading_white(chars@) == chars@.skip(r as int),
{
    let mut i: usize = 0;
    assert(chars@.skip(0) =~= chars@);
    while i < chars.len() && is_white_space(chars[i])
        invariant
            i <= chars.len(),
            without_leading_white(chars@) == without_leading_white(chars@.skip(i as int)),
        decreases chars.len() - i,
    {
        assert(chars@.skip(i as int).skip(1) =~= chars@.skip(i + 1));
        i = i + 1;
    }
    i
}

pub fn trim(text: &str) -> (r: String)
    ensures
        r@ == trimmed(text@),
{
    let chars = chars_of(text);
    let from = first_dark(&chars);
    let mut to: usize = chars.len();
    assert(chars@.subrange(from as int, to as int) =~= chars@.skip(from as int));
    while to > from && is_white_space(chars[to - 1])
        invariant
            from <= to <= chars.len(),
            trimmed(text@) == without_trailing_white(chars@.subrange(from as int, to as int)),
        decreases to - from,
    {
        assert(chars@.subrange(from as int, to as int).drop_last() =~= chars@.subrange(
            from as int,
            to - 1,
        ));
        to = to - 1;
    }
    slice_of(&chars, from, to)
}

pub fn trim_start(text: &str) -> (r: String)
    ensures
        r@ == without_leading_white(text@),
{
    let chars = chars_of(text);
    let from = first_dark(&chars);
    assert(chars@.subrange(from as int, chars@.len() as int) =~= chars@.skip(from as int));
    slice_of(&chars, from, chars.len())
}

/// The first run of characters that holds no white space, if there is one.
pub open spec fn first_word(s: Seq<char>) -> Option<Seq<char>> {
    let rest = without_leading_white(s);
    if rest.len() == 0 {
        None
    } else {
        Some(until_white(rest))
    }
}

/// `s` up to its first white space.
pub open spec fn until_white(s: Seq<char>) -> Seq<char>
    decreases s.len(),
{
    if s.len() == 0 || is_white(s[0]) {
        Seq::empty()
    } else {
        seq![s[0]] + until_white(s.skip(1))
    }
}

proof fn lemma_until_white(s: Seq<char>, k: int)
    requires
        0 <= k <= s.len(),
        forall|i: int| 0 <= i < k ==> !is_white(#[trigger] s[i]),
        k == s.len() || is_white(s[k]),
    ensures
        until_white(s) == s.take(k),
    decreases k,
{
    if k == 0 {
        assert(s.take(0) =~= Seq::empty());
    } else {
        assert forall|i: int| 0 <= i < k - 1 implies !is_white(#[trigger] s.skip(1)[i]) by {
            assert(s.skip(1)[i] == s[i + 1]);
        }
        if k < s.len() {
            assert(s.skip(1)[k - 1] == s[k]);
        }
        lemma_until_white(s.skip(1), k - 1);
        assert(seq![s[0]] + s.skip(1).take(k - 1) =~= s.take(k));
    }
}

pub fn word(text: &str) -> (r: Option<String>)
    ensures
        said(r) == first_word(text@),
{
    let chars = chars_of(text);
    let from = first_dark(&chars);
    let ghost rest = chars@.skip(from as int);
    if from == chars.len() {
        return None;
    }
    let mut to: usize = from;
    while to < chars.len() && !is_white_space(chars[to])
        invariant
            from <= to <= chars.len(),
            rest == chars@.skip(from as int),
            forall|i: int| 0 <= i < to - from ==> !is_white(#[trigger] rest[i]),
        decreases chars.len() - to,
    {
        assert(rest[to - from] == chars@[to as int]);
        to = to + 1;
    }
    proof {
        if to < chars.len() {
            assert(rest[to - from] == chars@[to as int]);
        }
        lemma_until_white(rest, to - from);
        assert(rest.take(to - from) =~= chars@.subrange(from as int, to as int));
    }
    Some(slice_of(&chars, from, to))
}

/// The words of `s`, where `word` was read just before it.
pub open spec fn words_after(word: Seq<char>, s: Seq<char>) -> Seq<Seq<char>>
    decreases s.len(),
{
    let done = if word.len() > 0 {
        seq![word]
    } else {
        Seq::empty()
    };
    if s.len() == 0 {
        done
    } else if is_white(s[0]) {
        done + words_after(Seq::empty(), s.skip(1))
    } else {
        words_after(word.push(s[0]), s.skip(1))
    }
}

/// The runs of characters between white space.
pub open spec fn words(s: Seq<char>) -> Seq<Seq<char>> {
    words_after(Seq::empty(), s)
}

pub fn split_words(text: &str) -> (r: Vec<String>)
    ensures
        texts(r@) == words(text@),
{
    let chars = chars_of(text);
    let mut out: Vec<String> = Vec::new();
    let mut word = String::new();
    let mut i: usize = 0;
    proof {
        assert(chars@.skip(0) =~= chars@);
        assert(word@ =~= Seq::empty());
        assert(texts(out@) + words_after(word@, chars@.skip(0)) =~= words(text@));
    }
    while i < chars.len()
        invariant
            i <= chars.len(),
            texts(out@) + words_after(word@, chars@.skip(i as int)) == words(text@),
        decreases chars.len() - i,
    {
        let ghost rest = chars@.skip(i as int);
        let ghost before = texts(out@);
        assert(rest[0] == chars@[i as int]);
        assert(rest.skip(1) =~= chars@.skip(i + 1));
        if is_white_space(chars[i]) {
            let ghost more = words_after(Seq::empty(), rest.skip(1));
            if word.as_str().is_empty() {
                assert(before + (Seq::<Seq<char>>::empty() + more) =~= before + more);
            } else {
                assert(texts(out@.push(word)) =~= before.push(word@));
                assert(before + (seq![word@] + more) =~= before.push(word@) + more);
                out.push(word);
            }
            word = String::new();
            assert(word@ =~= Seq::empty());
        } else {
            word.push(chars[i]);
        }
        i = i + 1;
    }
    assert(chars@.skip(chars@.len() as int) =~= Seq::empty());
    if !word.as_str().is_empty() {
        assert(texts(out@.push(word)) =~= texts(out@) + seq![word@]);
        out.push(word);
    } else {
        assert(texts(out@) + Seq::<Seq<char>>::empty() =~= texts(out@));
    }
    out
}

// ---- finding ---------------------------------------------------------------

/// `part` stands in `s` at `at`.
pub open spec fn stands_at(s: Seq<char>, part: Seq<char>, at: int) -> bool {
    0 <= at <= s.len() - part.len() && s.subrange(at, at + part.len()) == part
}

/// Where `part` stands in `s` first.
#[verifier::opaque]
pub open spec fn found(s: Seq<char>, part: Seq<char>) -> Option<int> {
    if exists|at: int| stands_at(s, part, at) {
        Some(
            choose|at: int|
                stands_at(s, part, at) && forall|i: int| 0 <= i < at ==> !stands_at(s, part, i),
        )
    } else {
        None
    }
}

pub open spec fn has_part(s: Seq<char>, part: Seq<char>) -> bool {
    exists|at: int| stands_at(s, part, at)
}

/// `at` is where `part` stands first.
pub proof fn lemma_found(s: Seq<char>, part: Seq<char>, at: int)
    requires
        stands_at(s, part, at),
        forall|i: int| 0 <= i < at ==> !stands_at(s, part, i),
    ensures
        found(s, part) == Some(at),
{
    reveal(found);
    let first = found(s, part)->0;
    assert(stands_at(s, part, first) && forall|i: int| 0 <= i < first ==> !stands_at(s, part, i));
    if first < at {
        assert(!stands_at(s, part, first));
    }
}

pub proof fn lemma_not_found(s: Seq<char>, part: Seq<char>)
    requires
        forall|i: int| !stands_at(s, part, i),
    ensures
        found(s, part) is None,
{
    reveal(found);
}

fn stands(chars: &Vec<char>, part: &Vec<char>, at: usize) -> (r: bool)
    requires
        at + part.len() <= chars.len(),
    ensures
        r == stands_at(chars@, part@, at as int),
{
    let mut i: usize = 0;
    while i < part.len()
        invariant
            i <= part.len(),
            at + part.len() <= chars.len(),
            forall|k: int| 0 <= k < i ==> chars@[at + k] == #[trigger] part@[k],
        decreases part.len() - i,
    {
        if chars[at + i] != part[i] {
            assert(chars@.subrange(at as int, at + part@.len())[i as int] != part@[i as int]);
            return false;
        }
        i = i + 1;
    }
    assert(chars@.subrange(at as int, at + part@.len()) =~= part@);
    true
}

pub fn find(chars: &Vec<char>, part: &Vec<char>) -> (r: Option<usize>)
    ensures
        match r {
            Some(at) => found(chars@, part@) == Some(at as int) && at + part@.len() <= chars@.len(),
            None => found(chars@, part@) is None,
        },
        r is Some == has_part(chars@, part@),
        r is Some ==> stands_at(chars@, part@, r->0 as int),
{
    if part.len() > chars.len() {
        proof {
            lemma_not_found(chars@, part@);
        }
        return None;
    }
    let last: usize = chars.len() - part.len();
    let mut at: usize = 0;
    while at <= last
        invariant
            last == chars.len() - part.len(),
            at <= last + 1,
            forall|i: int| 0 <= i < at ==> !stands_at(chars@, part@, i),
        decreases last + 1 - at,
    {
        if stands(chars, part, at) {
            proof {
                lemma_found(chars@, part@, at as int);
            }
            return Some(at);
        }
        if at == last {
            proof {
                lemma_not_found(chars@, part@);
            }
            return None;
        }
        at = at + 1;
    }
    proof {
        lemma_not_found(chars@, part@);
    }
    None
}

pub fn contains(text: &str, part: &str) -> (r: bool)
    ensures
        r == has_part(text@, part@),
{
    find(&chars_of(text), &chars_of(part)).is_some()
}

/// What stands in front of the first `separator` and what stands behind it.
pub open spec fn cut(s: Seq<char>, separator: Seq<char>) -> Option<(Seq<char>, Seq<char>)> {
    match found(s, separator) {
        Some(at) => Some((s.take(at), s.skip(at + separator.len()))),
        None => None,
    }
}

pub open spec fn said_pair(pair: Option<(String, String)>) -> Option<(Seq<char>, Seq<char>)> {
    match pair {
        Some((a, b)) => Some((a@, b@)),
        None => None,
    }
}

pub fn split_once(text: &str, separator: &str) -> (r: Option<(String, String)>)
    ensures
        said_pair(r) == cut(text@, separator@),
{
    let chars = chars_of(text);
    let part = chars_of(separator);
    match find(&chars, &part) {
        Some(at) => {
            assert(at + part.len() <= chars.len());
            assert(chars@.subrange(0, at as int) =~= chars@.take(at as int));
            assert(chars@.subrange(at + part@.len(), chars@.len() as int) =~= chars@.skip(
                at + part@.len(),
            ));
            Some((slice_of(&chars, 0, at), slice_of(&chars, at + part.len(), chars.len())))
        },
        None => None,
    }
}

/// The texts between the separators.
pub open spec fn pieces(s: Seq<char>, separator: Seq<char>) -> Seq<Seq<char>>
    decreases s.len(),
{
    if separator.len() == 0 {
        seq![s]
    } else {
        match cut(s, separator) {
            Some((head, rest)) => if rest.len() < s.len() {
                seq![head] + pieces(rest, separator)
            } else {
                seq![s]
            },
            None => seq![s],
        }
    }
}

/// Cuts `text` at every `separator`.
pub fn split(text: &str, separator: &str) -> (r: Vec<String>)
    requires
        separator@.len() > 0,
    ensures
        texts(r@) == pieces(text@, separator@),
        r@.len() > 0,
{
    let mut out: Vec<String> = Vec::new();
    let mut rest: String = text.to_owned();
    assert(texts(out@) + pieces(rest@, separator@) =~= pieces(text@, separator@));
    loop
        invariant_except_break
            texts(out@) + pieces(rest@, separator@) == pieces(text@, separator@),
        invariant
            separator@.len() > 0,
        ensures
            out@.len() > 0,
            texts(out@) == pieces(text@, separator@),
        decreases rest@.len(),
    {
        match split_once(rest.as_str(), separator) {
            Some((head, tail)) => {
                proof {
                    lemma_found_stands(rest@, separator@);
                    assert(tail@.len() < rest@.len());
                    assert(texts(out@.push(head)) =~= texts(out@).push(head@));
                    assert(texts(out@).push(head@) + pieces(tail@, separator@) =~= texts(out@) + (
                    seq![head@] + pieces(tail@, separator@)));
                }
                out.push(head);
                rest = tail;
            },
            None => {
                assert(texts(out@.push(rest)) =~= texts(out@) + seq![rest@]);
                out.push(rest);
                break;
            },
        }
    }
    out
}

proof fn lemma_found_stands(s: Seq<char>, part: Seq<char>)
    requires
        found(s, part) is Some,
    ensures
        stands_at(s, part, found(s, part)->0),
{
    reveal(found);
    let any = choose|at: int| stands_at(s, part, at);
    lemma_first_standing(s, part, any);
}

proof fn lemma_first_standing(s: Seq<char>, part: Seq<char>, at: int)
    requires
        stands_at(s, part, at),
    ensures
        exists|first: int|
            stands_at(s, part, first) && forall|i: int| 0 <= i < first ==> !stands_at(s, part, i),
    decreases at,
{
    if exists|i: int| 0 <= i < at && stands_at(s, part, i) {
        let i = choose|i: int| 0 <= i < at && stands_at(s, part, i);
        lemma_first_standing(s, part, i);
    }
}

pub open spec fn has_prefix(s: Seq<char>, part: Seq<char>) -> bool {
    stands_at(s, part, 0)
}

pub open spec fn has_suffix(s: Seq<char>, part: Seq<char>) -> bool {
    stands_at(s, part, s.len() - part.len())
}

pub fn starts_with(text: &str, part: &str) -> (r: bool)
    ensures
        r == has_prefix(text@, part@),
{
    let chars = chars_of(text);
    let part_chars = chars_of(part);
    part_chars.len() <= chars.len() && stands(&chars, &part_chars, 0)
}

pub fn ends_with(text: &str, part: &str) -> (r: bool)
    ensures
        r == has_suffix(text@, part@),
{
    let chars = chars_of(text);
    let part_chars = chars_of(part);
    part_chars.len() <= chars.len() && stands(&chars, &part_chars, chars.len() - part_chars.len())
}

/// What follows `part` at the start of `text`.
pub fn strip_prefix(text: &str, part: &str) -> (r: Option<String>)
    ensures
        said(r) == if has_prefix(text@, part@) {
            Some(text@.skip(part@.len() as int))
        } else {
            None
        },
{
    let chars = chars_of(text);
    let part_chars = chars_of(part);
    if part_chars.len() <= chars.len() && stands(&chars, &part_chars, 0) {
        assert(chars@.subrange(part@.len() as int, chars@.len() as int) =~= chars@.skip(
            part@.len() as int,
        ));
        Some(slice_of(&chars, part_chars.len(), chars.len()))
    } else {
        None
    }
}

/// What stands behind the last `c`, or all of `s` where there is none.
pub open spec fn after_last(s: Seq<char>, c: char) -> Seq<char>
    decreases s.len(),
{
    if s.len() == 0 || s.last() == c {
        Seq::empty()
    } else {
        after_last(s.drop_last(), c).push(s.last())
    }
}

pub fn tail_after(text: &str, c: char) -> (r: String)
    ensures
        r@ == after_last(text@, c),
{
    let chars = chars_of(text);
    let mut from: usize = chars.len();
    assert(chars@.take(chars@.len() as int) =~= chars@);
    assert(chars@.skip(chars@.len() as int) =~= Seq::<char>::empty());
    assert(after_last(chars@.take(from as int), c) + chars@.skip(from as int) =~= after_last(
        chars@,
        c,
    ));
    while from > 0 && chars[from - 1] != c
        invariant
            from <= chars.len(),
            after_last(chars@.take(from as int), c) + chars@.skip(from as int) == after_last(
                chars@,
                c,
            ),
        decreases from,
    {
        proof {
            let head = chars@.take(from as int);
            assert(head.drop_last() =~= chars@.take(from - 1));
            assert(after_last(head.drop_last(), c).push(head.last()) + chars@.skip(from as int)
                =~= after_last(chars@.take(from - 1), c) + chars@.skip(from - 1));
        }
        from = from - 1;
    }
    proof {
        if from > 0 {
            assert(chars@.take(from as int).last() == c);
        }
        assert(after_last(chars@.take(from as int), c) =~= Seq::<char>::empty());
        assert(chars@.subrange(from as int, chars@.len() as int) =~= chars@.skip(from as int));
        assert(Seq::<char>::empty() + chars@.skip(from as int) =~= chars@.skip(from as int));
    }
    slice_of(&chars, from, chars.len())
}

/// What stands in front of the first `c`, or all of `s` where there is none.
pub open spec fn before_first(s: Seq<char>, c: char) -> Seq<char>
    decreases s.len(),
{
    if s.len() == 0 || s[0] == c {
        Seq::empty()
    } else {
        seq![s[0]] + before_first(s.skip(1), c)
    }
}

pub proof fn lemma_before_first(s: Seq<char>, c: char, k: int)
    requires
        0 <= k <= s.len(),
        forall|i: int| 0 <= i < k ==> #[trigger] s[i] != c,
        k == s.len() || s[k] == c,
    ensures
        before_first(s, c) == s.take(k),
    decreases k,
{
    if k == 0 {
        assert(s.take(0) =~= Seq::empty());
    } else {
        assert forall|i: int| 0 <= i < k - 1 implies #[trigger] s.skip(1)[i] != c by {
            assert(s.skip(1)[i] == s[i + 1]);
        }
        if k < s.len() {
            assert(s.skip(1)[k - 1] == s[k]);
        }
        lemma_before_first(s.skip(1), c, k - 1);
        assert(seq![s[0]] + s.skip(1).take(k - 1) =~= s.take(k));
    }
}

pub fn head_before(text: &str, c: char) -> (r: String)
    ensures
        r@ == before_first(text@, c),
{
    let chars = chars_of(text);
    let mut to: usize = 0;
    while to < chars.len() && chars[to] != c
        invariant
            to <= chars.len(),
            forall|i: int| 0 <= i < to ==> #[trigger] chars@[i] != c,
        decreases chars.len() - to,
    {
        to = to + 1;
    }
    proof {
        lemma_before_first(chars@, c, to as int);
        assert(chars@.subrange(0, to as int) =~= chars@.take(to as int));
    }
    slice_of(&chars, 0, to)
}

pub fn has_char(text: &str, c: char) -> (r: bool)
    ensures
        r == text@.contains(c),
{
    let chars = chars_of(text);
    let mut i: usize = 0;
    while i < chars.len()
        invariant
            i <= chars.len(),
            chars@ == text@,
            forall|k: int| 0 <= k < i ==> #[trigger] chars@[k] != c,
        decreases chars.len() - i,
    {
        if chars[i] == c {
            assert(text@[i as int] == c);
            return true;
        }
        i = i + 1;
    }
    false
}

/// The text as it is written in source code.
pub uninterp spec fn quoted(text: Seq<char>) -> Seq<char>;

/// The `Debug` form of std's `str`: the text between quotation marks, with escapes where
/// they are needed.
#[verifier::external_body]
pub(crate) fn quote(text: &str) -> (r: String)
    ensures
        r@ == quoted(text@),
{
    format!("{:?}", text)
}

/// What stands in front of the last `c`; everything where there is none.
pub open spec fn before_last(s: Seq<char>, c: char) -> Seq<char> {
    if s.contains(c) {
        s.take(s.len() - after_last(s, c).len() - 1)
    } else {
        s
    }
}

pub proof fn lemma_after_last_len(s: Seq<char>, c: char)
    ensures
        after_last(s, c).len() <= s.len(),
        s.contains(c) ==> after_last(s, c).len() < s.len(),
    decreases s.len(),
{
    if s.len() > 0 && s.last() != c {
        lemma_after_last_len(s.drop_last(), c);
        if s.contains(c) {
            let i = choose|i: int| 0 <= i < s.len() && s[i] == c;
            assert(s.drop_last()[i] == c);
        }
    }
}

pub fn head_before_last(text: &str, c: char) -> (r: String)
    ensures
        r@ == before_last(text@, c),
{
    if !has_char(text, c) {
        return text.to_owned();
    }
    let chars = chars_of(text);
    let tail = chars_of(tail_after(text, c).as_str()).len();
    proof {
        lemma_after_last_len(text@, c);
    }
    let n = chars.len() - tail - 1;
    assert(chars@.subrange(0, n as int) =~= text@.take(n as int));
    slice_of(&chars, 0, n)
}

// ---- order -------------------------------------------------------------------

/// `a` comes before `b` in the order of characters, a prefix before what it begins.
pub open spec fn precedes(a: Seq<char>, b: Seq<char>) -> bool
    decreases a.len(),
{
    if b.len() == 0 {
        false
    } else if a.len() == 0 {
        true
    } else if a[0] != b[0] {
        a[0] < b[0]
    } else {
        precedes(a.skip(1), b.skip(1))
    }
}

pub fn comes_before(a: &str, b: &str) -> (r: bool)
    ensures
        r == precedes(a@, b@),
{
    let x = chars_of(a);
    let y = chars_of(b);
    let mut i: usize = 0;
    assert(x@.skip(0) =~= x@);
    assert(y@.skip(0) =~= y@);
    while i < x.len() && i < y.len()
        invariant
            i <= x.len(),
            i <= y.len(),
            precedes(a@, b@) == precedes(x@.skip(i as int), y@.skip(i as int)),
        decreases x.len() - i,
    {
        assert(x@.skip(i as int)[0] == x@[i as int]);
        assert(y@.skip(i as int)[0] == y@[i as int]);
        if x[i] != y[i] {
            return x[i] < y[i];
        }
        assert(x@.skip(i as int).skip(1) =~= x@.skip(i + 1));
        assert(y@.skip(i as int).skip(1) =~= y@.skip(i + 1));
        i = i + 1;
    }
    i < y.len()
}

pub proof fn lemma_precedes_transitive(a: Seq<char>, b: Seq<char>, c: Seq<char>)
    requires
        precedes(a, b),
        precedes(b, c),
    ensures
        precedes(a, c),
    decreases a.len(),
{
    if a.len() > 0 && a[0] == b[0] && b[0] == c[0] {
        lemma_precedes_transitive(a.skip(1), b.skip(1), c.skip(1));
    }
}

pub proof fn lemma_precedes_total(a: Seq<char>, b: Seq<char>)
    ensures
        precedes(a, b) || precedes(b, a) || a == b,
        !(precedes(a, b) && precedes(b, a)),
        !precedes(a, a),
    decreases a.len(),
{
    if a.len() > 0 {
        lemma_precedes_total(a.skip(1), a.skip(1));
    }
    if a.len() > 0 && b.len() > 0 && a[0] == b[0] {
        lemma_precedes_total(a.skip(1), b.skip(1));
        if a.skip(1) == b.skip(1) {
            assert(a =~= seq![a[0]] + a.skip(1));
            assert(b =~= seq![b[0]] + b.skip(1));
        }
    } else if a.len() == 0 && b.len() == 0 {
        assert(a =~= b);
    }
}

/// `a` comes before `b` in the order of their first texts that differ, a list before what
/// it begins.
pub open spec fn list_precedes(a: Seq<Seq<char>>, b: Seq<Seq<char>>) -> bool
    decreases a.len(),
{
    if b.len() == 0 {
        false
    } else if a.len() == 0 {
        true
    } else if a[0] != b[0] {
        precedes(a[0], b[0])
    } else {
        list_precedes(a.skip(1), b.skip(1))
    }
}

pub fn list_before(a: &Vec<String>, b: &Vec<String>) -> (r: bool)
    ensures
        r == list_precedes(texts(a@), texts(b@)),
{
    let ghost x = texts(a@);
    let ghost y = texts(b@);
    let mut i: usize = 0;
    assert(x.skip(0) =~= x);
    assert(y.skip(0) =~= y);
    while i < a.len() && i < b.len()
        invariant
            i <= a.len(),
            i <= b.len(),
            x == texts(a@),
            y == texts(b@),
            list_precedes(texts(a@), texts(b@)) == list_precedes(x.skip(i as int), y.skip(i as int)),
        decreases a.len() - i,
    {
        assert(x.skip(i as int)[0] == a@[i as int]@);
        assert(y.skip(i as int)[0] == b@[i as int]@);
        if !same_text(a[i].as_str(), b[i].as_str()) {
            return comes_before(a[i].as_str(), b[i].as_str());
        }
        assert(x.skip(i as int).skip(1) =~= x.skip(i + 1));
        assert(y.skip(i as int).skip(1) =~= y.skip(i + 1));
        i = i + 1;
    }
    i < b.len()
}

pub proof fn lemma_list_precedes_transitive(
    a: Seq<Seq<char>>,
    b: Seq<Seq<char>>,
    c: Seq<Seq<char>>,
)
    requires
        list_precedes(a, b),
        list_precedes(b, c),
    ensures
        list_precedes(a, c),
    decreases a.len(),
{
    if a.len() > 0 {
        if a[0] == b[0] && b[0] == c[0] {
            lemma_list_precedes_transitive(a.skip(1), b.skip(1), c.skip(1));
        } else if a[0] != b[0] && b[0] != c[0] {
            lemma_precedes_transitive(a[0], b[0], c[0]);
            lemma_precedes_total(a[0], b[0]);
            lemma_precedes_total(a[0], c[0]);
        }
    }
}

pub proof fn lemma_list_precedes_total(a: Seq<Seq<char>>, b: Seq<Seq<char>>)
    ensures
        list_precedes(a, b) || list_precedes(b, a) || a == b,
        !(list_precedes(a, b) && list_precedes(b, a)),
        !list_precedes(a, a),
    decreases a.len(),
{
    if a.len() > 0 {
        lemma_list_precedes_total(a.skip(1), a.skip(1));
    }
    if a.len() > 0 && b.len() > 0 {
        lemma_precedes_total(a[0], b[0]);
        if a[0] == b[0] {
            lemma_list_precedes_total(a.skip(1), b.skip(1));
            if a.skip(1) == b.skip(1) {
                assert(a =~= seq![a[0]] + a.skip(1));
                assert(b =~= seq![b[0]] + b.skip(1));
            }
        }
    } else if a.len() == 0 && b.len() == 0 {
        assert(a =~= b);
    }
}

/// `text` with blanks behind it until it has `len` characters.
pub open spec fn widened(text: Seq<char>, len: int) -> Seq<char> {
    text + repeated(
        ' ',
        if text.len() < len {
            len - text.len()
        } else {
            0
        },
    )
}

pub fn widen(text: &str, len: usize) -> (r: String)
    ensures
        r@ == widened(text@, len as int),
{
    let have = chars_of(text).len();
    let missing: usize = if have < len {
        len - have
    } else {
        0
    };
    cat2(text, repeat(' ', missing).as_str())
}

/// Texts in ascending order, none of them twice.
pub open spec fn ascending(list: Seq<Seq<char>>) -> bool {
    forall|i: int, j: int| 0 <= i < j < list.len() ==> precedes(#[trigger] list[i], #[trigger] list[j])
}

/// Adds a text to an ascending list, in its place and only once.
pub fn insert_sorted(list: &mut Vec<String>, text: String)
    requires
        ascending(texts(old(list)@)),
    ensures
        ascending(texts(final(list)@)),
        forall|t: Seq<char>|
            texts(final(list)@).contains(t) <==> texts(old(list)@).contains(t) || t == text@,
{
    let ghost before = texts(list@);
    let mut i: usize = 0;
    while i < list.len() && comes_before(list[i].as_str(), text.as_str())
        invariant
            i <= list.len(),
            before == texts(list@),
            list@ == old(list)@,
            forall|k: int| 0 <= k < i ==> precedes(#[trigger] before[k], text@),
        decreases list.len() - i,
    {
        assert(before[i as int] == list@[i as int]@);
        i = i + 1;
    }
    if i < list.len() && list[i] == text {
        assert(before[i as int] == text@);
        return;
    }
    let ghost added = text@;
    list.insert(i, text);
    let ghost after = texts(list@);
    proof {
        assert(after =~= before.insert(i as int, added));
        if i < before.len() {
            lemma_precedes_total(before[i as int], added);
        }
        assert forall|a: int, b: int| 0 <= a < b < after.len() implies precedes(
            #[trigger] after[a],
            #[trigger] after[b],
        ) by {
            if a < i && b < i {
                assert(precedes(before[a], before[b]));
            } else if a < i && b == i {
                assert(precedes(before[a], added));
            } else if a < i {
                assert(precedes(before[a], before[b - 1]));
            } else if a == i {
                if b - 1 > i {
                    assert(precedes(before[i as int], before[b - 1]));
                    lemma_precedes_transitive(added, before[i as int], before[b - 1]);
                }
            } else {
                assert(precedes(before[a - 1], before[b - 1]));
            }
        }
        assert forall|t: Seq<char>| after.contains(t) <==> before.contains(t) || t == added by {
            if before.contains(t) {
                let k = choose|k: int| 0 <= k < before.len() && before[k] == t;
                if k < i {
                    assert(after[k] == t);
                } else {
                    assert(after[k + 1] == t);
                }
            }
            if t == added {
                assert(after[i as int] == t);
            }
            if after.contains(t) {
                let k = choose|k: int| 0 <= k < after.len() && after[k] == t;
                if k < i {
                    assert(before[k] == t);
                } else if k > i {
                    assert(before[k - 1] == t);
                }
            }
        }
    }
}

/// Two ascending lists that hold the same texts are the same.
pub proof fn lemma_ascending_unique(a: Seq<Seq<char>>, b: Seq<Seq<char>>)
    requires
        ascending(a),
        ascending(b),
        forall|t: Seq<char>| a.contains(t) <==> b.contains(t),
    ensures
        a == b,
    decreases a.len(),
{
    if a.len() == 0 {
        if b.len() > 0 {
            assert(b.contains(b[0]));
        }
        assert(a =~= b);
    } else {
        assert(a.contains(a[0]));
        assert(b.contains(a[0]));
        let k = choose|k: int| 0 <= k < b.len() && b[k] == a[0];
        if k > 0 {
            assert(precedes(b[0], b[k]));
            assert(b.contains(b[0]));
            assert(a.contains(b[0]));
            let j = choose|j: int| 0 <= j < a.len() && a[j] == b[0];
            lemma_precedes_total(a[0], b[0]);
            if j > 0 {
                assert(precedes(a[0], a[j]));
            }
            assert(false);
        }
        let x = a.skip(1);
        let y = b.skip(1);
        assert(ascending(x)) by {
            assert forall|i: int, j: int| 0 <= i < j < x.len() implies precedes(
                #[trigger] x[i],
                #[trigger] x[j],
            ) by {
                assert(precedes(a[i + 1], a[j + 1]));
            }
        }
        assert(ascending(y)) by {
            assert forall|i: int, j: int| 0 <= i < j < y.len() implies precedes(
                #[trigger] y[i],
                #[trigger] y[j],
            ) by {
                assert(precedes(b[i + 1], b[j + 1]));
            }
        }
        assert forall|t: Seq<char>| x.contains(t) <==> y.contains(t) by {
            lemma_precedes_total(a[0], a[0]);
            if x.contains(t) {
                let i = choose|i: int| 0 <= i < x.len() && x[i] == t;
                assert(a[i + 1] == t);
                assert(a.contains(t));
                let j = choose|j: int| 0 <= j < b.len() && b[j] == t;
                assert(precedes(a[0], a[i + 1]));
                assert(j > 0);
                assert(y[j - 1] == t);
            }
            if y.contains(t) {
                let i = choose|i: int| 0 <= i < y.len() && y[i] == t;
                assert(b[i + 1] == t);
                assert(b.contains(t));
                let j = choose|j: int| 0 <= j < a.len() && a[j] == t;
                assert(precedes(b[0], b[i + 1]));
                assert(j > 0);
                assert(x[j - 1] == t);
            }
        }
        lemma_ascending_unique(x, y);
        assert(a =~= seq![a[0]] + x);
        assert(b =~= seq![b[0]] + y);
    }
}

/// An ascending list holds each text once: it has as many as there are different ones.
pub proof fn lemma_ascending_count(list: Seq<Seq<char>>)
    requires
        ascending(list),
    ensures
        list.no_duplicates(),
        list.to_set().len() == list.len(),
        list.to_set().finite(),
{
    assert forall|i: int, j: int| 0 <= i < list.len() && 0 <= j < list.len() && i != j implies list[i]
        != list[j] by {
        lemma_precedes_total(list[i], list[i]);
        if i < j {
            assert(precedes(list[i], list[j]));
        } else {
            assert(precedes(list[j], list[i]));
        }
    }
    list.unique_seq_to_set();
}

/// Whether a list holds a text.
pub fn list_holds(list: &Vec<String>, text: &str) -> (r: bool)
    ensures
        r == texts(list@).contains(text@),
{
    let mut i: usize = 0;
    while i < list.len()
        invariant
            i <= list.len(),
            forall|k: int| 0 <= k < i ==> #[trigger] texts(list@)[k] != text@,
        decreases list.len() - i,
    {
        if same_text(list[i].as_str(), text) {
            assert(texts(list@)[i as int] == text@);
            return true;
        }
        i = i + 1;
    }
    false
}

// ---- laws --------------------------------------------------------------------

/// A number that is written in digits reads as itself.
pub proof fn lemma_numerals_read_back(n: int)
    requires
        0 <= n,
    ensures
        numeral(n).len() > 0,
        digits_value(numeral(n)) == Some(n),
        forall|i: int| 0 <= i < numeral(n).len() ==> '0' <= #[trigger] numeral(n)[i] <= '9',
        n > 0 ==> numeral(n)[0] != '0',
        n <= usize::MAX ==> parsed(numeral(n)) == Some(n as usize),
    decreases n,
{
    if n < 10 {
        reveal_with_fuel(digits_value, 2);
        assert(numeral(n).drop_last() =~= Seq::<char>::empty());
    } else {
        lemma_numerals_read_back(n / 10);
        assert(numeral(n).drop_last() =~= numeral(n / 10));
        assert(n == (n / 10) * 10 + n % 10);
    }
    assert(numeral(n)[0] != '+');
}

/// Trimming takes white space away at both ends and nothing else: what is left begins and
/// ends with something that can be seen.
pub proof fn lemma_only_white_space_is_trimmed(s: Seq<char>) -> (cut: (int, int))
    ensures
        0 <= cut.0 <= cut.1 <= s.len(),
        trimmed(s) == s.subrange(cut.0, cut.1),
        forall|i: int| 0 <= i < cut.0 ==> is_white(#[trigger] s[i]),
        forall|i: int| cut.1 <= i < s.len() ==> is_white(#[trigger] s[i]),
        cut.0 < cut.1 ==> !is_white(s[cut.0]) && !is_white(s[cut.1 - 1]),
{
    let from = lemma_leading_white_is_skipped(s);
    let rest = s.skip(from);
    let n = lemma_trailing_white_is_dropped(rest);
    assert(rest.take(n) =~= s.subrange(from, from + n));
    assert forall|i: int| from + n <= i < s.len() implies is_white(#[trigger] s[i]) by {
        assert(rest[i - from] == s[i]);
    }
    if n > 0 {
        assert(rest[0] == s[from]);
        assert(rest[n - 1] == s[from + n - 1]);
    }
    (from, from + n)
}

proof fn lemma_leading_white_is_skipped(s: Seq<char>) -> (from: int)
    ensures
        0 <= from <= s.len(),
        without_leading_white(s) == s.skip(from),
        forall|i: int| 0 <= i < from ==> is_white(#[trigger] s[i]),
        from < s.len() ==> !is_white(s[from]),
    decreases s.len(),
{
    if s.len() > 0 && is_white(s[0]) {
        let n = lemma_leading_white_is_skipped(s.skip(1));
        assert(s.skip(1).skip(n) =~= s.skip(n + 1));
        assert forall|i: int| 0 <= i < n + 1 implies is_white(#[trigger] s[i]) by {
            if i > 0 {
                assert(s.skip(1)[i - 1] == s[i]);
            }
        }
        n + 1
    } else {
        assert(s.skip(0) =~= s);
        0
    }
}

proof fn lemma_trailing_white_is_dropped(s: Seq<char>) -> (n: int)
    ensures
        0 <= n <= s.len(),
        without_trailing_white(s) == s.take(n),
        forall|i: int| n <= i < s.len() ==> is_white(#[trigger] s[i]),
        n > 0 ==> !is_white(s[n - 1]),
    decreases s.len(),
{
    if s.len() > 0 && is_white(s.last()) {
        let n = lemma_trailing_white_is_dropped(s.drop_last());
        assert(s.drop_last().take(n) =~= s.take(n));
        assert forall|i: int| n <= i < s.len() implies is_white(#[trigger] s[i]) by {
            if i < s.len() - 1 {
                assert(s.drop_last()[i] == s[i]);
            }
        }
        n
    } else {
        assert(s.take(s.len() as int) =~= s);
        s.len() as int
    }
}

/// What white space counts: blanks, tabulators and line ends do, letters, digits and signs
/// of seven bits do not.
pub proof fn lemma_what_white_space_is(c: char)
    ensures
        c == ' ' || c == '\t' || c == '\n' || c == '\r' ==> is_white(c),
        '!' <= c <= '~' ==> !is_white(c),
{
}

/// The words of a text hold all that can be seen in it, in order, and no white space; none
/// is empty.
pub proof fn lemma_words_hold_the_text(s: Seq<char>)
    ensures
        words(s).flatten() == s.filter(|c: char| !is_white(c)),
        forall|i: int| 0 <= i < words(s).len() ==> (#[trigger] words(s)[i]).len() > 0,
        forall|i: int, k: int|
            0 <= i < words(s).len() && 0 <= k < words(s)[i].len() ==> !is_white(
                #[trigger] words(s)[i][k],
            ),
{
    lemma_words_after_hold_the_text(Seq::empty(), s);
    assert(Seq::<char>::empty() + s.filter(|c: char| !is_white(c)) =~= s.filter(
        |c: char| !is_white(c),
    ));
}

proof fn lemma_words_after_hold_the_text(word: Seq<char>, s: Seq<char>)
    requires
        forall|k: int| 0 <= k < word.len() ==> !is_white(#[trigger] word[k]),
    ensures
        words_after(word, s).flatten() == word + s.filter(|c: char| !is_white(c)),
        forall|i: int|
            0 <= i < words_after(word, s).len() ==> (#[trigger] words_after(word, s)[i]).len() > 0,
        forall|i: int, k: int|
            0 <= i < words_after(word, s).len() && 0 <= k < words_after(word, s)[i].len()
                ==> !is_white(#[trigger] words_after(word, s)[i][k]),
    decreases s.len(),
{
    let dark = |c: char| !is_white(c);
    let done = if word.len() > 0 {
        seq![word]
    } else {
        Seq::empty()
    };
    assert(done.flatten() == word) by {
        reveal_with_fuel(Seq::<_>::flatten, 2);
        if word.len() > 0 {
            assert(done.drop_first() =~= Seq::<Seq<char>>::empty());
            assert(word + Seq::<char>::empty() =~= word);
        } else {
            assert(word =~= Seq::<char>::empty());
        }
    }
    if s.len() == 0 {
        reveal(Seq::filter);
        assert(word + Seq::<char>::empty() =~= word);
    } else {
        let head = seq![s[0]];
        let rest = s.skip(1);
        assert(s =~= head + rest);
        Seq::filter_distributes_over_add(head, rest, dark);
        assert(head.filter(dark) =~= if dark(s[0]) {
            head
        } else {
            Seq::empty()
        }) by {
            reveal_with_fuel(Seq::filter, 2);
            assert(head.drop_last() =~= Seq::<char>::empty());
        }
        if is_white(s[0]) {
            lemma_words_after_hold_the_text(Seq::empty(), rest);
            let more = words_after(Seq::empty(), rest);
            lemma_flatten_of_two(done, more);
            assert(Seq::<char>::empty() + rest.filter(dark) =~= rest.filter(dark));
            assert forall|i: int| 0 <= i < (done + more).len() implies (#[trigger] (done
                + more)[i]).len() > 0 by {
                if i >= done.len() {
                    assert((done + more)[i] == more[i - done.len()]);
                }
            }
            assert forall|i: int, k: int|
                0 <= i < (done + more).len() && 0 <= k < (done + more)[i].len() implies !is_white(
                #[trigger] (done + more)[i][k],
            ) by {
                if i >= done.len() {
                    assert((done + more)[i] == more[i - done.len()]);
                    assert(!is_white(more[i - done.len()][k]));
                } else {
                    assert((done + more)[i] == word);
                }
            }
        } else {
            lemma_words_after_hold_the_text(word.push(s[0]), rest);
            assert(word.push(s[0]) + rest.filter(dark) =~= word + (head + rest.filter(dark)));
        }
    }
}

proof fn lemma_flatten_of_two(a: Seq<Seq<char>>, b: Seq<Seq<char>>)
    ensures
        (a + b).flatten() == a.flatten() + b.flatten(),
    decreases a.len(),
{
    reveal_with_fuel(Seq::<_>::flatten, 2);
    if a.len() == 0 {
        assert(a + b =~= b);
        assert(Seq::<char>::empty() + b.flatten() =~= b.flatten());
    } else {
        assert((a + b).drop_first() =~= a.drop_first() + b);
        lemma_flatten_of_two(a.drop_first(), b);
        assert(a.first() + (a.drop_first().flatten() + b.flatten()) =~= (a.first()
            + a.drop_first().flatten()) + b.flatten());
    }
}

/// What a text is cut into is what it was: the separator put back between the two gives the
/// text again, and in front of it there is no other.
pub proof fn lemma_a_cut_can_be_undone(s: Seq<char>, separator: Seq<char>)
    ensures
        cut(s, separator) is Some <==> has_part(s, separator),
        cut(s, separator) is Some ==> {
            let halves = cut(s, separator)->Some_0;
            &&& halves.0 + separator + halves.1 == s
            &&& separator.len() > 0 ==> !has_part(halves.0, separator)
        },
{
    reveal(found);
    if has_part(s, separator) {
        let any = choose|at: int| stands_at(s, separator, at);
        lemma_there_is_a_first(s, separator, any);
        let at = found(s, separator)->0;
        assert(stands_at(s, separator, at) && forall|i: int|
            0 <= i < at ==> !stands_at(s, separator, i));
        let head = s.take(at);
        assert(head + separator + s.skip(at + separator.len()) =~= s) by {
            assert(s.subrange(at, at + separator.len()) == separator);
            assert(s =~= head + s.subrange(at, at + separator.len()) + s.skip(
                at + separator.len(),
            ));
        }
        if separator.len() > 0 && has_part(head, separator) {
            let i = choose|i: int| stands_at(head, separator, i);
            assert(head.subrange(i, i + separator.len()) =~= s.subrange(i, i + separator.len()));
            assert(stands_at(s, separator, i));
        }
    }
}

proof fn lemma_there_is_a_first(s: Seq<char>, part: Seq<char>, at: int)
    requires
        stands_at(s, part, at),
    ensures
        exists|first: int|
            stands_at(s, part, first) && forall|i: int| 0 <= i < first ==> !stands_at(s, part, i),
    decreases at,
{
    if forall|i: int| 0 <= i < at ==> !stands_at(s, part, i) {
        assert(stands_at(s, part, at));
    } else {
        let i = choose|i: int| 0 <= i < at && stands_at(s, part, i);
        lemma_there_is_a_first(s, part, i);
    }
}

/// The pieces of a text, with the separator put back between them, are the text again, and
/// no piece holds the separator.
pub proof fn lemma_pieces_make_the_text(s: Seq<char>, separator: Seq<char>)
    requires
        separator.len() > 0,
    ensures
        joined(pieces(s, separator), separator) == s,
        pieces(s, separator).len() > 0,
        forall|i: int|
            0 <= i < pieces(s, separator).len() ==> !has_part(
                #[trigger] pieces(s, separator)[i],
                separator,
            ),
    decreases s.len(),
{
    lemma_a_cut_can_be_undone(s, separator);
    match cut(s, separator) {
        Some((head, rest)) => {
            assert(rest.len() < s.len()) by {
                assert(head + separator + rest == s);
            }
            lemma_pieces_make_the_text(rest, separator);
            let more = pieces(rest, separator);
            lemma_joined_from_the_front(head, more, separator);
            let all = seq![head] + more;
            assert forall|i: int| 0 <= i < all.len() implies !has_part(
                #[trigger] all[i],
                separator,
            ) by {
                if i > 0 {
                    assert(all[i] == more[i - 1]);
                }
            }
        },
        None => {
            assert(pieces(s, separator) =~= seq![s]);
        },
    }
}

/// Texts are joined in their order with the separator between each two of them.
pub proof fn lemma_joined_from_the_front(head: Seq<char>, rest: Seq<Seq<char>>, separator: Seq<char>)
    requires
        rest.len() > 0,
    ensures
        joined(seq![head] + rest, separator) == head + separator + joined(rest, separator),
        joined(seq![head], separator) == head,
    decreases rest.len(),
{
    let all = seq![head] + rest;
    assert(all.last() == rest.last());
    assert(seq![head][0] == head);
    if rest.len() == 1 {
        assert(all.drop_last() =~= seq![head]);
        assert(joined(seq![head], separator) == head);
        assert(joined(all, separator) == head + separator + rest[0]);
    } else {
        assert(all.drop_last() =~= seq![head] + rest.drop_last());
        lemma_joined_from_the_front(head, rest.drop_last(), separator);
        assert(head + separator + joined(rest.drop_last(), separator) + separator + rest.last()
            =~= head + separator + (joined(rest.drop_last(), separator) + separator
            + rest.last()));
    }
}

/// What stands behind the last of a character holds none of it and ends the text.
pub proof fn lemma_what_stands_behind_the_last(s: Seq<char>, c: char)
    ensures
        !after_last(s, c).contains(c),
        after_last(s, c).len() <= s.len(),
        after_last(s, c) == s.skip(s.len() - after_last(s, c).len()),
        after_last(s, c).len() < s.len() ==> s[s.len() - after_last(s, c).len() - 1] == c,
        !s.contains(c) ==> after_last(s, c) == s,
    decreases s.len(),
{
    if s.len() == 0 {
        assert(after_last(s, c) =~= s.skip(0));
    } else if s.last() == c {
        assert(s[s.len() - 1] == c);
        assert(s.skip(s.len() as int) =~= Seq::<char>::empty());
    } else {
        let front = s.drop_last();
        let tail = after_last(front, c);
        let whole = after_last(s, c);
        lemma_what_stands_behind_the_last(front, c);
        assert(whole == tail.push(s.last()));
        let n = front.len() - tail.len();
        assert forall|i: int| 0 <= i < whole.len() implies whole[i] == s.skip(n)[i] && whole[i]
            != c by {
            if i < tail.len() {
                assert(tail[i] == front.skip(n)[i]);
                assert(tail.contains(tail[i]));
            }
        }
        assert(whole =~= s.skip(n));
        if tail.len() < front.len() {
            assert(s[n - 1] == front[n - 1]);
        }
        if !s.contains(c) {
            assert(whole.len() == s.len()) by {
                if n > 0 {
                    assert(s[n - 1] == c);
                }
            }
            assert(s.skip(0) =~= s);
        }
    }
}

/// What stands in front of the last of a character, the character, and what stands behind
/// it make up the text.
pub proof fn lemma_a_text_is_parted_at_the_last(s: Seq<char>, c: char)
    ensures
        s.contains(c) ==> before_last(s, c) + seq![c] + after_last(s, c) == s,
        !s.contains(c) ==> before_last(s, c) == s,
{
    lemma_what_stands_behind_the_last(s, c);
    let tail = after_last(s, c);
    if s.contains(c) {
        let n = s.len() - tail.len();
        if n == 0 {
            assert(tail =~= s);
        }
        assert(tail =~= s.skip(n));
        assert(s.take(n - 1) + seq![c] + s.skip(n) =~= s);
    }
}

/// One text comes before another exactly where it is the beginning of it, or has the lesser
/// character where they first differ.
pub proof fn lemma_what_comes_before(a: Seq<char>, b: Seq<char>, k: int)
    requires
        0 <= k <= a.len(),
        k <= b.len(),
        a.take(k) == b.take(k),
        k == a.len() || k == b.len() || a[k] != b[k],
    ensures
        precedes(a, b) <==> k < b.len() && (k == a.len() || a[k] < b[k]),
    decreases k,
{
    if k > 0 {
        assert(a.take(k)[0] == b.take(k)[0]);
        assert(a[0] == a.take(k)[0] && b[0] == b.take(k)[0]);
        let x = a.skip(1);
        let y = b.skip(1);
        assert(x.take(k - 1) =~= a.take(k).skip(1));
        assert(y.take(k - 1) =~= b.take(k).skip(1));
        lemma_what_comes_before(x, y, k - 1);
    }
}

/// White space is what Unicode counts as such.
pub proof fn lemma_the_white_space_of_unicode(c: char)
    ensures
        is_white(c) <==> c == ' ' || '\u{9}' <= c <= '\u{d}' || c == '\u{85}' || c == '\u{a0}' || c
            == '\u{1680}' || '\u{2000}' <= c <= '\u{200a}' || c == '\u{2028}' || c == '\u{2029}'
            || c == '\u{202f}' || c == '\u{205f}' || c == '\u{3000}',
{
}

} // verus!
