//! Text as sequences of characters: the handful of string operations that the
//! lesson tools are built from, each with the function it computes.

use vstd::prelude::*;

verus! {

/// `String::push` appends the given character to the end of the string.
pub assume_specification[ String::push ](s: &mut String, c: char)
    ensures
        final(s)@ == old(s)@.push(c),
;

// ---------------------------------------------------------------------------
// What the operations compute
// ---------------------------------------------------------------------------

/// The texts of a list of strings.
pub open spec fn views(list: Seq<String>) -> Seq<Seq<char>> {
    Seq::new(list.len(), |i: int| list[i]@)
}

/// The text of an optional string.
pub open spec fn opt_view(s: Option<String>) -> Option<Seq<char>> {
    match s {
        Some(s) => Some(s@),
        None => None,
    }
}

/// The characters with the Unicode property `White_Space`.
pub open spec fn is_white(c: char) -> bool {
    ||| '\u{9}' <= c <= '\u{d}'
    ||| c == '\u{20}'
    ||| c == '\u{85}'
    ||| c == '\u{a0}'
    ||| c == '\u{1680}'
    ||| '\u{2000}' <= c <= '\u{200a}'
    ||| c == '\u{2028}'
    ||| c == '\u{2029}'
    ||| c == '\u{202f}'
    ||| c == '\u{205f}'
    ||| c == '\u{3000}'
}

/// `s` without a final `suffix`, where it has one.
pub open spec fn without_suffix(s: Seq<char>, suffix: Seq<char>) -> Option<Seq<char>> {
    if suffix.is_suffix_of(s) {
        Some(s.take(s.len() - suffix.len()))
    } else {
        None
    }
}

/// `s` without an initial `prefix`, where it has one.
pub open spec fn without_prefix(s: Seq<char>, prefix: Seq<char>) -> Option<Seq<char>> {
    if prefix.is_prefix_of(s) {
        Some(s.skip(prefix.len() as int))
    } else {
        None
    }
}

/// `s` with every final `suffix` taken off, one after the other.
pub open spec fn without_suffixes(s: Seq<char>, suffix: Seq<char>) -> Seq<char>
    decreases s.len(),
{
    if suffix.len() > 0 && suffix.is_suffix_of(s) {
        without_suffixes(s.take(s.len() - suffix.len()), suffix)
    } else {
        s
    }
}

/// The place of the first occurrence of `pattern` in `s`.
pub open spec fn find(s: Seq<char>, pattern: Seq<char>) -> Option<nat>
    decreases s.len(),
{
    if pattern.is_prefix_of(s) {
        Some(0)
    } else if s.len() == 0 {
        None
    } else {
        match find(s.skip(1), pattern) {
            Some(i) => Some(i + 1),
            None => None,
        }
    }
}

/// How many characters of `s` come before the first `c`; all of them where
/// there is no `c`.
pub open spec fn before_char(s: Seq<char>, c: char) -> nat
    decreases s.len(),
{
    if s.len() == 0 || s[0] == c {
        0
    } else {
        1 + before_char(s.skip(1), c)
    }
}

/// A line without the carriage return that ends it, where one does.
pub open spec fn without_return(line: Seq<char>) -> Seq<char> {
    if line.len() > 0 && line.last() == '\r' {
        line.drop_last()
    } else {
        line
    }
}

/// The lines of a text. A line ends at a newline, which may have a carriage
/// return before it; neither belongs to the line. The last line need not end.
pub open spec fn lines(s: Seq<char>) -> Seq<Seq<char>>
    decreases s.len(),
{
    let n = before_char(s, '\n');
    if s.len() == 0 {
        seq![]
    } else if n >= s.len() {
        seq![s]
    } else {
        seq![without_return(s.take(n as int))] + lines(s.skip(n as int + 1))
    }
}

/// How many characters of `s` come before the first white space.
pub open spec fn word_len(s: Seq<char>) -> nat
    decreases s.len(),
{
    if s.len() == 0 || is_white(s[0]) {
        0
    } else {
        1 + word_len(s.skip(1))
    }
}

/// The words of a text: its longest stretches without white space.
pub open spec fn words(s: Seq<char>) -> Seq<Seq<char>>
    decreases s.len(),
{
    if s.len() == 0 {
        seq![]
    } else if is_white(s[0]) {
        words(s.skip(1))
    } else {
        proof {
            lemma_word_len(s);
        }
        let n = word_len(s) as int;
        seq![s.take(n)] + words(s.skip(n))
    }
}

/// `s` without the white space at its start.
pub open spec fn trimmed_start(s: Seq<char>) -> Seq<char>
    decreases s.len(),
{
    if s.len() > 0 && is_white(s[0]) {
        trimmed_start(s.skip(1))
    } else {
        s
    }
}

/// `s` without the white space at its end.
pub open spec fn trimmed_end(s: Seq<char>) -> Seq<char>
    decreases s.len(),
{
    if s.len() > 0 && is_white(s.last()) {
        trimmed_end(s.drop_last())
    } else {
        s
    }
}

/// `s` without the white space around it.
pub open spec fn trimmed(s: Seq<char>) -> Seq<char> {
    trimmed_end(trimmed_start(s))
}

/// Whether `c` is an ASCII digit.
pub open spec fn is_digit(c: char) -> bool {
    '0' <= c <= '9'
}

/// Whether `s` holds ASCII digits only.
pub open spec fn all_digits(s: Seq<char>) -> bool {
    forall|i: int| 0 <= i < s.len() ==> is_digit(#[trigger] s[i])
}

/// The number that a row of digits writes in base ten.
pub open spec fn digits_value(s: Seq<char>) -> nat
    decreases s.len(),
{
    if s.len() == 0 {
        0
    } else {
        (10 * digits_value(s.drop_last()) + (s.last() as int - '0' as int)) as nat
    }
}

/// The `u32` that a text writes: an optional `+`, then digits only.
pub open spec fn read_u32(s: Seq<char>) -> Option<u32> {
    let digits = if s.len() > 0 && s[0] == '+' {
        s.skip(1)
    } else {
        s
    };
    if digits.len() > 0 && all_digits(digits) && digits_value(digits) <= u32::MAX {
        Some(digits_value(digits) as u32)
    } else {
        None
    }
}

/// The digit for a number below ten.
pub open spec fn digit(n: nat) -> char {
    ('0' as int + n) as char
}

/// A number written in base ten, without leading zeros.
pub open spec fn decimal(n: nat) -> Seq<char>
    decreases n,
{
    if n < 10 {
        seq![digit(n)]
    } else {
        decimal(n / 10).push(digit(n % 10))
    }
}

/// An integer written in base ten, with a minus sign where it is negative.
pub open spec fn signed_decimal(n: int) -> Seq<char> {
    if n < 0 {
        seq!['-'] + decimal((-n) as nat)
    } else {
        decimal(n as nat)
    }
}

/// Whether `a` comes strictly before `b` in the order of their code points.
pub open spec fn precedes(a: Seq<char>, b: Seq<char>) -> bool
    decreases a.len(),
{
    b.len() > 0 && (a.len() == 0 || a[0] < b[0] || (a[0] == b[0] && precedes(a.skip(1), b.skip(1))))
}

/// The texts of a list, one after the other, with `separator` between them.
pub open spec fn joined(list: Seq<Seq<char>>, separator: Seq<char>) -> Seq<char>
    decreases list.len(),
{
    if list.len() == 0 {
        seq![]
    } else if list.len() == 1 {
        list[0]
    } else {
        joined(list.drop_last(), separator) + separator + list.last()
    }
}

// ---------------------------------------------------------------------------
// The operations
// ---------------------------------------------------------------------------

/// The first word of a text lies in it, and is followed by white space or by
/// the end.
pub proof fn lemma_word_len(s: Seq<char>)
    ensures
        word_len(s) <= s.len(),
        forall|i: int| 0 <= i < word_len(s) ==> !is_white(#[trigger] s[i]),
        word_len(s) < s.len() ==> is_white(s[word_len(s) as int]),
    decreases s.len(),
{
    if s.len() > 0 && !is_white(s[0]) {
        lemma_word_len(s.skip(1));
        assert forall|i: int| 0 <= i < word_len(s) implies !is_white(#[trigger] s[i]) by {
            if i > 0 {
                assert(s[i] == s.skip(1)[i - 1]);
            }
        }
    }
}

/// What comes before the first `c` lies in the text and holds no `c`.
pub proof fn lemma_before_char(s: Seq<char>, c: char)
    ensures
        before_char(s, c) <= s.len(),
        forall|i: int| 0 <= i < before_char(s, c) ==> #[trigger] s[i] != c,
        before_char(s, c) < s.len() ==> s[before_char(s, c) as int] == c,
    decreases s.len(),
{
    if s.len() > 0 && s[0] != c {
        lemma_before_char(s.skip(1), c);
        assert forall|i: int| 0 <= i < before_char(s, c) implies #[trigger] s[i] != c by {
            if i > 0 {
                assert(s[i] == s.skip(1)[i - 1]);
            }
        }
    }
}

/// There is one place only that fits the description of `before_char`.
pub proof fn lemma_before_char_is(s: Seq<char>, c: char, n: int)
    requires
        0 <= n <= s.len(),
        forall|i: int| 0 <= i < n ==> #[trigger] s[i] != c,
        n < s.len() ==> s[n] == c,
    ensures
        before_char(s, c) == n,
{
    lemma_before_char(s, c);
    let m = before_char(s, c) as int;
    if m < n {
        assert(s[m] != c);
    } else if n < m {
        assert(s[n] != c);
    }
}

/// There is one place only that fits the description of `word_len`.
pub proof fn lemma_word_len_is(s: Seq<char>, n: int)
    requires
        0 <= n <= s.len(),
        forall|i: int| 0 <= i < n ==> !is_white(#[trigger] s[i]),
        n < s.len() ==> is_white(s[n]),
    ensures
        word_len(s) == n,
{
    lemma_word_len(s);
    let m = word_len(s) as int;
    if m < n {
        assert(!is_white(s[m]));
    } else if n < m {
        assert(!is_white(s[n]));
    }
}

/// The characters of a text, in order.
pub fn chars_of(s: &str) -> (chars: Vec<char>)
    ensures
        chars@ == s@,
{
    let mut chars: Vec<char> = Vec::new();
    for c in it: s.chars()
        invariant
            it.seq() == s@,
            chars@ == s@.take(it.index() as int),
    {
        chars.push(c);
        assert(chars@ =~= s@.take(it.index() + 1));
    }
    assert(s@.take(s@.len() as int) =~= s@);
    chars
}

/// The text made of `chars[from..to]`.
pub fn text_between(chars: &[char], from: usize, to: usize) -> (s: String)
    requires
        from <= to <= chars@.len(),
    ensures
        s@ == chars@.subrange(from as int, to as int),
{
    let mut s = String::new();
    for i in from..to
        invariant
            from <= to <= chars@.len(),
            s@ == chars@.subrange(from as int, i as int),
    {
        s.push(chars[i]);
        assert(s@ =~= chars@.subrange(from as int, i + 1));
    }
    s
}

/// Whether `chars` holds `pattern` at place `at`.
fn occurs_at(chars: &[char], pattern: &[char], at: usize) -> (r: bool)
    requires
        at <= chars@.len(),
    ensures
        r == pattern@.is_prefix_of(chars@.skip(at as int)),
{
    if pattern.len() > chars.len() - at {
        return false;
    }
    for i in 0..pattern.len()
        invariant
            at + pattern.len() <= chars.len(),
            forall|k: int| 0 <= k < i ==> chars@[at + k] == #[trigger] pattern@[k],
    {
        if chars[at + i] != pattern[i] {
            assert(chars@.skip(at as int).subrange(0, pattern@.len() as int)[i as int] != pattern@[i as int]);
            return false;
        }
    }
    assert(pattern@ =~= chars@.skip(at as int).subrange(0, pattern@.len() as int));
    true
}

/// Whether two texts are the same.
pub fn same_text(a: &str, b: &str) -> (r: bool)
    ensures
        r == (a@ == b@),
{
    let a = chars_of(a);
    let b = chars_of(b);
    if a.len() != b.len() {
        return false;
    }
    let r = occurs_at(a.as_slice(), b.as_slice(), 0);
    assert(a@.skip(0) =~= a@);
    assert(a@.subrange(0, a@.len() as int) =~= a@);
    r
}

/// Whether `s` ends with `suffix`.
pub fn ends_with(s: &str, suffix: &str) -> (r: bool)
    ensures
        r == suffix@.is_suffix_of(s@),
{
    let s = chars_of(s);
    let suffix = chars_of(suffix);
    if suffix.len() > s.len() {
        return false;
    }
    let at = s.len() - suffix.len();
    let r = occurs_at(s.as_slice(), suffix.as_slice(), at);
    assert(s@.skip(at as int).subrange(0, suffix@.len() as int) =~= s@.subrange(at as int, s@.len() as int));
    r
}

/// `s` without a final `suffix`; nothing where `s` does not end with it.
pub fn strip_suffix(s: &str, suffix: &str) -> (r: Option<String>)
    ensures
        opt_view(r) == without_suffix(s@, suffix@),
{
    if ends_with(s, suffix) {
        let chars = chars_of(s);
        let keep = chars.len() - chars_of(suffix).len();
        Some(text_between(chars.as_slice(), 0, keep))
    } else {
        None
    }
}

/// `s` without an initial `prefix`; nothing where `s` does not start with it.
pub fn strip_prefix(s: &str, prefix: &str) -> (r: Option<String>)
    ensures
        opt_view(r) == without_prefix(s@, prefix@),
{
    let chars = chars_of(s);
    let head = chars_of(prefix);
    assert(chars@.skip(0) =~= chars@);
    if occurs_at(chars.as_slice(), head.as_slice(), 0) {
        Some(text_between(chars.as_slice(), head.len(), chars.len()))
    } else {
        None
    }
}

/// `s` with every final `suffix` taken off.
pub fn trim_end_matches(s: &str, suffix: &str) -> (r: String)
    requires
        suffix@.len() > 0,
    ensures
        r@ == without_suffixes(s@, suffix@),
{
    let mut rest: String = s.to_string();
    loop
        invariant
            suffix@.len() > 0,
            without_suffixes(rest@, suffix@) == without_suffixes(s@, suffix@),
        decreases rest@.len(),
    {
        match strip_suffix(rest.as_str(), suffix) {
            Some(shorter) => {
                rest = shorter;
            },
            None => {
                return rest;
            },
        }
    }
}

/// Where `pattern` first occurs in `chars`, at place `from` or later.
fn find_from(chars: &[char], pattern: &[char], from: usize) -> (r: Option<usize>)
    requires
        from <= chars@.len(),
    ensures
        r matches Some(i) ==> from <= i && i + pattern@.len() <= chars@.len() && find(
            chars@.skip(from as int),
            pattern@,
        ) == Some((i - from) as nat),
        r is None ==> find(chars@.skip(from as int), pattern@) is None,
{
    let mut at: usize = from;
    while !occurs_at(chars, pattern, at)
        invariant
            from <= at <= chars.len(),
            match find(chars@.skip(at as int), pattern@) {
                Some(i) => find(chars@.skip(from as int), pattern@) == Some((i + at - from) as nat),
                None => find(chars@.skip(from as int), pattern@) is None,
            },
        decreases chars.len() - at,
    {
        if at == chars.len() {
            return None;
        }
        assert(chars@.skip(at as int).skip(1) =~= chars@.skip(at + 1));
        at = at + 1;
    }
    Some(at)
}

/// What follows the first `open` in `s`, up to the next `close`.
pub open spec fn enclosed(s: Seq<char>, open: Seq<char>, close: char) -> Option<Seq<char>> {
    match find(s, open) {
        Some(i) => {
            let rest = s.skip((i + open.len()) as int);
            let n = before_char(rest, close);
            if n < rest.len() {
                Some(rest.take(n as int))
            } else {
                None
            }
        },
        None => None,
    }
}

/// The place of the first `c` in `chars[from..]`; the end where there is none.
fn char_from(chars: &[char], c: char, from: usize) -> (at: usize)
    requires
        from <= chars@.len(),
    ensures
        from <= at <= chars@.len(),
        at == from + before_char(chars@.skip(from as int), c),
{
    let mut at: usize = from;
    while at < chars.len() && chars[at] != c
        invariant
            from <= at <= chars.len(),
            forall|i: int| 0 <= i < at - from ==> #[trigger] chars@.skip(from as int)[i] != c,
        decreases chars.len() - at,
    {
        at = at + 1;
    }
    proof {
        lemma_before_char_is(chars@.skip(from as int), c, at - from);
    }
    at
}

/// What stands in `s` between the first `open` and the next `close`.
pub fn text_enclosed(s: &str, open: &str, close: char) -> (r: Option<String>)
    ensures
        opt_view(r) == enclosed(s@, open@, close),
{
    let chars = chars_of(s);
    let key = chars_of(open);
    assert(chars@.skip(0) =~= chars@);
    match find_from(chars.as_slice(), key.as_slice(), 0) {
        Some(i) => {
            assert(i + key.len() <= chars.len());
            let start = i + key.len();
            let end = char_from(chars.as_slice(), close, start);
            if end < chars.len() {
                assert(chars@.skip(start as int).take(end - start) =~= chars@.subrange(start as int, end as int));
                Some(text_between(chars.as_slice(), start, end))
            } else {
                None
            }
        },
        None => None,
    }
}

/// The lines of a text.
pub fn split_lines(s: &str) -> (r: Vec<String>)
    ensures
        views(r@) == lines(s@),
{
    let chars = chars_of(s);
    let mut r: Vec<String> = Vec::new();
    let mut start: usize = 0;
    assert(chars@.skip(0) =~= chars@);
    assert(views(r@) + lines(s@) =~= lines(s@));
    while start < chars.len()
        invariant
            chars@ == s@,
            start <= chars.len(),
            views(r@) + lines(chars@.skip(start as int)) == lines(s@),
        decreases chars.len() - start,
    {
        let end = char_from(chars.as_slice(), '\n', start);
        let ghost rest = chars@.skip(start as int);
        let ghost before = views(r@);
        if end == chars.len() {
            r.push(text_between(chars.as_slice(), start, end));
            assert(chars@.subrange(start as int, end as int) =~= rest);
            assert(views(r@) =~= before + seq![rest]);
            assert(chars@.skip(end as int) =~= Seq::<char>::empty());
            assert(views(r@) + lines(chars@.skip(end as int)) =~= views(r@));
            start = end;
        } else {
            let stop = if end > start && chars[end - 1] == '\r' {
                end - 1
            } else {
                end
            };
            r.push(text_between(chars.as_slice(), start, stop));
            assert(chars@.subrange(start as int, stop as int) =~= without_return(rest.take(end - start)));
            assert(rest.skip(end - start + 1) =~= chars@.skip(end + 1));
            assert(views(r@) =~= before + seq![without_return(rest.take(end - start))]);
            assert(views(r@) + lines(chars@.skip(end + 1)) =~= before + lines(rest));
            start = end + 1;
        }
    }
    assert(chars@.skip(start as int) =~= Seq::<char>::empty());
    assert(views(r@) + lines(chars@.skip(start as int)) =~= views(r@));
    r
}

/// Whether `c` is white space.
pub fn is_white_space(c: char) -> (r: bool)
    ensures
        r == is_white(c),
{
    ('\u{9}' <= c && c <= '\u{d}') || c == '\u{20}' || c == '\u{85}' || c == '\u{a0}' || c
        == '\u{1680}' || ('\u{2000}' <= c && c <= '\u{200a}') || c == '\u{2028}' || c
        == '\u{2029}' || c == '\u{202f}' || c == '\u{205f}' || c == '\u{3000}'
}

/// The words of a text.
pub fn split_whitespace(s: &str) -> (r: Vec<String>)
    ensures
        views(r@) == words(s@),
{
    let chars = chars_of(s);
    let mut r: Vec<String> = Vec::new();
    let mut start: usize = 0;
    assert(chars@.skip(0) =~= chars@);
    assert(views(r@) + words(s@) =~= words(s@));
    while start < chars.len()
        invariant
            chars@ == s@,
            start <= chars.len(),
            views(r@) + words(chars@.skip(start as int)) == words(s@),
        decreases chars.len() - start,
    {
        let ghost rest = chars@.skip(start as int);
        if is_white_space(chars[start]) {
            assert(rest.skip(1) =~= chars@.skip(start + 1));
            start = start + 1;
        } else {
            let mut end: usize = start;
            while end < chars.len() && !is_white_space(chars[end])
                invariant
                    start <= end <= chars.len(),
                    rest == chars@.skip(start as int),
                    forall|i: int| 0 <= i < end - start ==> !is_white(#[trigger] rest[i]),
                decreases chars.len() - end,
            {
                assert(rest[end - start] == chars@[end as int]);
                end = end + 1;
            }
            let ghost before = views(r@);
            r.push(text_between(chars.as_slice(), start, end));
            proof {
                if end < chars.len() {
                    assert(rest[end - start] == chars@[end as int]);
                }
                lemma_word_len_is(rest, end - start);
                assert(!is_white(rest[0]));
                assert(chars@.subrange(start as int, end as int) =~= rest.take(end - start));
                assert(rest.skip(end - start) =~= chars@.skip(end as int));
                assert(views(r@) =~= before + seq![rest.take(end - start)]);
                assert(views(r@) + words(chars@.skip(end as int)) =~= before + words(rest));
            }
            start = end;
        }
    }
    assert(chars@.skip(start as int) =~= Seq::<char>::empty());
    assert(views(r@) + words(chars@.skip(start as int)) =~= views(r@));
    r
}

/// `s` without the white space around it.
pub fn trim(s: &str) -> (r: String)
    ensures
        r@ == trimmed(s@),
{
    let chars = chars_of(s);
    let mut from: usize = 0;
    assert(chars@.skip(0) =~= chars@);
    while from < chars.len() && is_white_space(chars[from])
        invariant
            from <= chars.len(),
            trimmed_start(chars@.skip(from as int)) == trimmed_start(chars@),
        decreases chars.len() - from,
    {
        assert(chars@.skip(from as int).skip(1) =~= chars@.skip(from + 1));
        from = from + 1;
    }
    assert(trimmed_start(chars@) == chars@.skip(from as int)) by {
        if from < chars.len() {
            assert(chars@.skip(from as int)[0] == chars@[from as int]);
        }
    }
    let mut to: usize = chars.len();
    assert(chars@.subrange(from as int, to as int) =~= chars@.skip(from as int));
    while from < to && is_white_space(chars[to - 1])
        invariant
            from <= to <= chars.len(),
            trimmed_end(chars@.subrange(from as int, to as int)) == trimmed(chars@),
        decreases to,
    {
        assert(chars@.subrange(from as int, to as int).drop_last() =~= chars@.subrange(
            from as int,
            to - 1,
        ));
        to = to - 1;
    }
    text_between(chars.as_slice(), from, to)
}

/// More digits never write a smaller number.
proof fn lemma_digits_value_grows(s: Seq<char>, n: int)
    requires
        all_digits(s),
        0 <= n <= s.len(),
    ensures
        digits_value(s.take(n)) <= digits_value(s),
    decreases s.len() - n,
{
    if n < s.len() {
        lemma_digits_value_grows(s, n + 1);
        assert(s.take(n + 1).drop_last() =~= s.take(n));
        assert(s.take(n + 1).last() == s[n]);
        assert(is_digit(s[n]));
    } else {
        assert(s.take(n) =~= s);
    }
}

/// The `u32` that a text writes.
pub fn parse_u32(s: &str) -> (r: Option<u32>)
    ensures
        r == read_u32(s@),
{
    let chars = chars_of(s);
    let from: usize = if chars.len() > 0 && chars[0] == '+' {
        1
    } else {
        0
    };
    let ghost digits = chars@.skip(from as int);
    assert(from == 0 ==> digits =~= chars@);
    if from == chars.len() {
        return None;
    }
    let mut value: u64 = 0;
    for i in from..chars.len()
        invariant
            from <= 1,
            digits == chars@.skip(from as int),
            forall|k: int| 0 <= k < i - from ==> is_digit(#[trigger] digits[k]),
            value == digits_value(digits.take(i - from)),
            value <= u32::MAX,
            digits.len() > 0,
            digits == (if s@.len() > 0 && s@[0] == '+' { s@.skip(1) } else { s@ }),
    {
        let c = chars[i];
        assert(digits[i - from] == c);
        if c < '0' || '9' < c {
            assert(!is_digit(digits[i - from]));
            return None;
        }
        assert(digits.take(i - from + 1).drop_last() =~= digits.take(i - from));
        value = 10 * value + (c as u64 - '0' as u64);
        if value > 4294967295 {
            proof {
                if all_digits(digits) {
                    lemma_digits_value_grows(digits, i - from + 1);
                }
            }
            return None;
        }
    }
    assert(digits.take(digits.len() as int) =~= digits);
    assert(all_digits(digits));
    Some(value as u32)
}

/// The digit for a number below ten.
fn digit_char(n: u8) -> (c: char)
    requires
        n < 10,
    ensures
        c == digit(n as nat),
{
    (48u8 + n) as char
}

/// A number written in base ten.
pub fn decimal_text(n: u128) -> (s: String)
    ensures
        s@ == decimal(n as nat),
    decreases n,
{
    let mut s = if n < 10 {
        String::new()
    } else {
        decimal_text(n / 10)
    };
    s.push(digit_char((n % 10) as u8));
    assert(n < 10 ==> s@ =~= seq![digit(n as nat)]);
    s
}

/// An integer written in base ten.
pub fn signed_decimal_text(n: i32) -> (s: String)
    ensures
        s@ == signed_decimal(n as int),
{
    if n < 0 {
        let mut s = String::new();
        s.push('-');
        let digits = decimal_text((-(n as i64)) as u128);
        s.append(digits.as_str());
        assert(s@ =~= seq!['-'] + digits@);
        s
    } else {
        decimal_text(n as u128)
    }
}

/// The first `n` characters of a text; all of it where it has fewer.
pub fn take_chars(s: &str, n: usize) -> (r: String)
    ensures
        r@ == (if s@.len() <= n { s@ } else { s@.take(n as int) }),
{
    let chars = chars_of(s);
    let to = if chars.len() <= n {
        chars.len()
    } else {
        n
    };
    assert(chars@.subrange(0, chars@.len() as int) =~= chars@);
    assert(s@.len() > n ==> chars@.subrange(0, n as int) =~= chars@.take(n as int));
    text_between(chars.as_slice(), 0, to)
}

/// Whether `a` comes strictly before `b` in the order of their code points.
pub fn comes_before(a: &str, b: &str) -> (r: bool)
    ensures
        r == precedes(a@, b@),
{
    let a = chars_of(a);
    let b = chars_of(b);
    let mut i: usize = 0;
    assert(a@.skip(0) =~= a@);
    assert(b@.skip(0) =~= b@);
    while i < a.len() && i < b.len() && a[i] == b[i]
        invariant
            i <= a.len(),
            i <= b.len(),
            precedes(a@.skip(i as int), b@.skip(i as int)) == precedes(a@, b@),
        decreases a.len() - i,
    {
        assert(a@.skip(i as int).skip(1) =~= a@.skip(i + 1));
        assert(b@.skip(i as int).skip(1) =~= b@.skip(i + 1));
        i = i + 1;
    }
    if i == b.len() {
        false
    } else if i == a.len() {
        true
    } else {
        a[i] < b[i]
    }
}

/// The texts of a list, one after the other, with `separator` between them.
pub fn join(list: &Vec<String>, separator: &str) -> (r: String)
    ensures
        r@ == joined(views(list@), separator@),
{
    let mut r = String::new();
    let ghost all = views(list@);
    for i in 0..list.len()
        invariant
            all == views(list@),
            r@ == joined(all.take(i as int), separator@),
    {
        assert(all.take(i + 1).drop_last() =~= all.take(i as int));
        assert(all.take(i + 1).last() == list@[i as int]@);
        if i > 0 {
            r.append(separator);
        }
        r.append(list[i].as_str());
        assert(i == 0 ==> r@ =~= list@[0]@);
    }
    assert(all.take(list@.len() as int) =~= all);
    r
}

// ---------------------------------------------------------------------------
// Laws
// ---------------------------------------------------------------------------

/// A text does not come before itself, and of two different texts exactly one
/// comes before the other.
pub proof fn law_precedes_total(a: Seq<char>, b: Seq<char>)
    ensures
        !precedes(a, a),
        a != b ==> (precedes(a, b) <==> !precedes(b, a)),
    decreases a.len(),
{
    if a.len() > 0 && b.len() > 0 && a[0] == b[0] {
        law_precedes_total(a.skip(1), b.skip(1));
        if a.skip(1) == b.skip(1) {
            assert(a =~= seq![a[0]] + a.skip(1));
            assert(b =~= seq![b[0]] + b.skip(1));
        }
    } else if a.len() > 0 {
        law_precedes_total(a.skip(1), a.skip(1));
    } else if b.len() == 0 {
        assert(a =~= b);
    }
}

/// What comes before a text comes before all that it comes before.
pub proof fn law_precedes_transitive(a: Seq<char>, b: Seq<char>, c: Seq<char>)
    requires
        precedes(a, b),
        precedes(b, c),
    ensures
        precedes(a, c),
    decreases a.len(),
{
    if a.len() > 0 && a[0] == b[0] && b[0] == c[0] {
        law_precedes_transitive(a.skip(1), b.skip(1), c.skip(1));
    }
}

/// A number that was written in base ten is read back as it was.
pub proof fn law_decimal_is_read_back(n: nat)
    requires
        n <= u32::MAX,
    ensures
        read_u32(decimal(n)) == Some(n as u32),
{
    lemma_decimal(n);
    assert(is_digit(decimal(n)[0]));
}

/// The digits of a number are digits and write that number.
pub proof fn lemma_decimal(n: nat)
    ensures
        decimal(n).len() > 0,
        all_digits(decimal(n)),
        digits_value(decimal(n)) == n,
    decreases n,
{
    reveal_with_fuel(digits_value, 2);
    if n >= 10 {
        lemma_decimal(n / 10);
        assert(decimal(n).drop_last() =~= decimal(n / 10));
    } else {
        assert(decimal(n).drop_last() =~= Seq::<char>::empty());
    }
}

/// A word, a white space and a rest: the word comes first among the words.
pub proof fn lemma_words_of_word_and_rest(word: Seq<char>, space: char, rest: Seq<char>)
    requires
        word.len() > 0,
        forall|i: int| 0 <= i < word.len() ==> !is_white(#[trigger] word[i]),
        is_white(space),
    ensures
        words(word + seq![space] + rest) == seq![word] + words(rest),
{
    let s = word + seq![space] + rest;
    let n = word.len() as int;
    assert forall|i: int| 0 <= i < n implies !is_white(#[trigger] s[i]) by {
        assert(s[i] == word[i]);
    }
    assert(s[n] == space);
    lemma_word_len_is(s, n);
    assert(!is_white(s[0]));
    assert(s.take(n) =~= word);
    assert(s.skip(n)[0] == space);
    assert(s.skip(n).skip(1) =~= rest);
    assert(words(s.skip(n)) == words(rest));
}

/// A single word is all the words of its text.
pub proof fn lemma_words_of_word(word: Seq<char>)
    requires
        word.len() > 0,
        forall|i: int| 0 <= i < word.len() ==> !is_white(#[trigger] word[i]),
    ensures
        words(word) == seq![word],
{
    let n = word.len() as int;
    lemma_word_len_is(word, n);
    assert(!is_white(word[0]));
    assert(word.take(n) =~= word);
    assert(words(word.skip(n)) =~= Seq::<Seq<char>>::empty());
    assert(words(word) =~= seq![word]);
}

/// One more word at the end of a text is one more word.
pub proof fn lemma_words_push(s: Seq<char>, space: char, word: Seq<char>)
    requires
        is_white(space),
        word.len() > 0,
        forall|i: int| 0 <= i < word.len() ==> !is_white(#[trigger] word[i]),
    ensures
        words(s + seq![space] + word) == words(s).push(word),
    decreases s.len(),
{
    let all = s + seq![space] + word;
    if s.len() == 0 {
        assert(all.skip(1) =~= word);
        lemma_words_of_word(word);
        assert(words(s).push(word) =~= seq![word]);
    } else if is_white(s[0]) {
        assert(all.skip(1) =~= s.skip(1) + seq![space] + word);
        lemma_words_push(s.skip(1), space, word);
    } else {
        lemma_word_len(s);
        let n = word_len(s) as int;
        assert forall|i: int| 0 <= i < n implies !is_white(#[trigger] all[i]) by {
            assert(all[i] == s[i]);
        }
        if n < s.len() {
            assert(all[n] == s[n]);
        } else {
            assert(all[n] == space);
        }
        lemma_word_len_is(all, n);
        assert(all.take(n) =~= s.take(n));
        assert(all.skip(n) =~= s.skip(n) + seq![space] + word);
        lemma_words_push(s.skip(n), space, word);
        assert(words(all) =~= words(s).push(word));
    }
}

/// White space at the end of a text changes none of its words.
pub proof fn lemma_words_before_space(s: Seq<char>, space: char)
    requires
        is_white(space),
    ensures
        words(s.push(space)) == words(s),
    decreases s.len(),
{
    let all = s.push(space);
    if s.len() == 0 {
        assert(all.skip(1) =~= s);
    } else if is_white(s[0]) {
        assert(all.skip(1) =~= s.skip(1).push(space));
        lemma_words_before_space(s.skip(1), space);
    } else {
        lemma_word_len(s);
        let n = word_len(s) as int;
        assert forall|i: int| 0 <= i < n implies !is_white(#[trigger] all[i]) by {
            assert(all[i] == s[i]);
        }
        if n < s.len() {
            assert(all[n] == s[n]);
        } else {
            assert(all[n] == space);
        }
        lemma_word_len_is(all, n);
        assert(all.take(n) =~= s.take(n));
        assert(all.skip(n) =~= s.skip(n).push(space));
        lemma_words_before_space(s.skip(n), space);
    }
}

/// Whether a text is white space only.
pub open spec fn is_blank(s: Seq<char>) -> bool {
    forall|i: int| 0 <= i < s.len() ==> is_white(#[trigger] s[i])
}

/// Nothing is left of white space when it is trimmed.
pub proof fn lemma_trimmed_blank(s: Seq<char>)
    requires
        is_blank(s),
    ensures
        trimmed(s).len() == 0,
    decreases s.len(),
{
    if s.len() > 0 {
        assert(is_white(s[0]));
        assert forall|i: int| 0 <= i < s.skip(1).len() implies is_white(#[trigger] s.skip(1)[i]) by {
            assert(s.skip(1)[i] == s[i + 1]);
        }
        lemma_trimmed_blank(s.skip(1));
    }
}

/// Something is left of a text that is not white space only.
pub proof fn lemma_trimmed_text(s: Seq<char>, i: int)
    requires
        0 <= i < s.len(),
        !is_white(s[i]),
    ensures
        trimmed(s).len() > 0,
    decreases s.len(),
{
    if is_white(s[0]) {
        assert(s.skip(1)[i - 1] == s[i]);
        lemma_trimmed_text(s.skip(1), i - 1);
    } else {
        assert(trimmed_start(s) == s);
        lemma_trimmed_end_keeps(s);
    }
}

/// What starts with no white space is not trimmed away from its end.
proof fn lemma_trimmed_end_keeps(s: Seq<char>)
    requires
        s.len() > 0,
        !is_white(s[0]),
    ensures
        trimmed_end(s).len() > 0,
    decreases s.len(),
{
    if is_white(s.last()) {
        assert(s.drop_last()[0] == s[0]);
        lemma_trimmed_end_keeps(s.drop_last());
    }
}

/// The lines of white space are white space.
pub proof fn lemma_blank_lines(s: Seq<char>)
    requires
        is_blank(s),
    ensures
        forall|i: int| 0 <= i < lines(s).len() ==> is_blank(#[trigger] lines(s)[i]),
    decreases s.len(),
{
    lemma_before_char(s, '\n');
    let n = before_char(s, '\n') as int;
    if s.len() > 0 && n < s.len() {
        let rest = s.skip(n + 1);
        assert forall|i: int| 0 <= i < rest.len() implies is_white(#[trigger] rest[i]) by {
            assert(rest[i] == s[i + n + 1]);
        }
        lemma_blank_lines(rest);
        let first = without_return(s.take(n));
        assert forall|i: int| 0 <= i < first.len() implies is_white(#[trigger] first[i]) by {
            assert(first[i] == s[i]);
        }
        assert forall|i: int| 0 <= i < lines(s).len() implies is_blank(#[trigger] lines(s)[i]) by {
            if i > 0 {
                assert(lines(s)[i] == lines(rest)[i - 1]);
            }
        }
    }
}

/// What follows whole lines has its own lines.
pub proof fn lemma_lines_concat(before: Seq<char>, s: Seq<char>)
    requires
        before.len() == 0 || before.last() == '\n',
    ensures
        lines(before + s) == lines(before) + lines(s),
    decreases before.len(),
{
    let all = before + s;
    if before.len() == 0 {
        assert(all =~= s);
        assert(lines(before) + lines(s) =~= lines(s));
    } else {
        lemma_before_char(before, '\n');
        let n = before_char(before, '\n') as int;
        assert(n < before.len()) by {
            if n == before.len() {
                assert(before[before.len() - 1] != '\n');
            }
        }
        assert forall|i: int| 0 <= i < n implies #[trigger] all[i] != '\n' by {
            assert(all[i] == before[i]);
        }
        lemma_before_char_is(all, '\n', n);
        let rest = before.skip(n + 1);
        assert(rest.len() > 0 ==> rest.last() == before.last());
        lemma_lines_concat(rest, s);
        assert(all.take(n) =~= before.take(n));
        assert(all.skip(n + 1) =~= rest + s);
        assert(lines(all) =~= lines(before) + lines(s));
    }
}

/// What may follow the last line that is not blank: nothing, or a newline and
/// white space.
pub open spec fn ends_line(end: Seq<char>) -> bool {
    end.len() == 0 || (end[0] == '\n' && is_blank(end))
}

/// A line and what ends it: the line comes first, without a carriage return
/// before a newline, and then the lines of what follows the newline.
pub proof fn lemma_lines_of_line(line: Seq<char>, end: Seq<char>)
    requires
        line.len() > 0,
        forall|i: int| 0 <= i < line.len() ==> #[trigger] line[i] != '\n',
        ends_line(end),
    ensures
        end.len() == 0 ==> lines(line + end) == seq![line],
        end.len() > 0 ==> lines(line + end) == seq![without_return(line)] + lines(end.skip(1)),
{
    let s = line + end;
    let n = line.len() as int;
    assert forall|i: int| 0 <= i < n implies #[trigger] s[i] != '\n' by {
        assert(s[i] == line[i]);
    }
    if end.len() > 0 {
        assert(s[n] == end[0]);
    }
    lemma_before_char_is(s, '\n', n);
    if end.len() == 0 {
        assert(s =~= line);
    } else {
        assert(s.take(n) =~= line);
        assert(s.skip(n + 1) =~= end.skip(1));
    }
}

/// Digits are no white space.
pub proof fn lemma_digits_are_no_space(s: Seq<char>)
    requires
        all_digits(s),
    ensures
        forall|i: int| 0 <= i < s.len() ==> !is_white(#[trigger] s[i]) && s[i] != '\n',
{
    assert forall|i: int| 0 <= i < s.len() implies !is_white(#[trigger] s[i]) && s[i] != '\n' by {
        assert(is_digit(s[i]));
    }
}

/// White space is a tab, one of the line and page breaks, a space of any kind
/// that Unicode knows, or the separator of lines or of paragraphs, and nothing
/// else.
pub proof fn law_white_space(c: char)
    ensures
        is_white(c) <==> {
            ||| 9 <= c as int <= 13
            ||| 0x2000 <= c as int <= 0x200a
            ||| seq![0x20int, 0x85, 0xa0, 0x1680, 0x2028, 0x2029, 0x202f, 0x205f, 0x3000].contains(
                c as int,
            )
        },
{
    let others = seq![0x20int, 0x85, 0xa0, 0x1680, 0x2028, 0x2029, 0x202f, 0x205f, 0x3000];
    assert(others[0] == 0x20 && others[1] == 0x85 && others[2] == 0xa0 && others[3] == 0x1680);
    assert(others[4] == 0x2028 && others[5] == 0x2029 && others[6] == 0x202f);
    assert(others[7] == 0x205f && others[8] == 0x3000);
}

/// A text falls into lines at its newlines: what stands before a newline is a
/// line, whatever follows, without a carriage return at its end; what follows
/// the last newline is a line where it is not empty.
pub proof fn law_lines_end_at_newlines(line: Seq<char>, rest: Seq<char>)
    requires
        forall|i: int| 0 <= i < line.len() ==> #[trigger] line[i] != '\n',
    ensures
        lines(line + seq!['\r', '\n'] + rest) == seq![line] + lines(rest),
        line.len() == 0 || line.last() != '\r' ==> lines(line + seq!['\n'] + rest) == seq![line]
            + lines(rest),
        line.len() > 0 ==> lines(line) == seq![line],
        line.len() == 0 ==> lines(line).len() == 0,
{
    let n = line.len() as int;
    let s = line + seq!['\n'] + rest;
    assert forall|i: int| 0 <= i < n implies #[trigger] s[i] != '\n' by {
        assert(s[i] == line[i]);
    }
    assert(s[n] == '\n');
    lemma_before_char_is(s, '\n', n);
    assert(s.take(n) =~= line);
    assert(s.skip(n + 1) =~= rest);
    let t = line + seq!['\r', '\n'] + rest;
    assert forall|i: int| 0 <= i < n + 1 implies #[trigger] t[i] != '\n' by {
        if i < n {
            assert(t[i] == line[i]);
        }
    }
    assert(t[n + 1] == '\n');
    lemma_before_char_is(t, '\n', n + 1);
    assert(t.take(n + 1).drop_last() =~= line);
    assert(t.skip(n + 2) =~= rest);
    lemma_before_char_is(line, '\n', n);
}

/// White space parts the words of a text, and what holds no white space is one
/// word.
pub proof fn law_words_are_parted(a: Seq<char>, space: char, b: Seq<char>)
    requires
        is_white(space),
    ensures
        words(a + seq![space] + b) == words(a) + words(b),
        (forall|i: int| 0 <= i < a.len() ==> !is_white(#[trigger] a[i])) && a.len() > 0 ==> words(a)
            == seq![a],
        a.len() == 0 ==> words(a).len() == 0,
    decreases a.len(),
{
    let all = a + seq![space] + b;
    if a.len() == 0 {
        assert(all.skip(1) =~= b);
        assert(words(a) + words(b) =~= words(b));
    } else if is_white(a[0]) {
        assert(all.skip(1) =~= a.skip(1) + seq![space] + b);
        law_words_are_parted(a.skip(1), space, b);
    } else {
        lemma_word_len(a);
        let n = word_len(a) as int;
        assert forall|i: int| 0 <= i < n implies !is_white(#[trigger] all[i]) by {
            assert(all[i] == a[i]);
        }
        if n < a.len() {
            assert(all[n] == a[n]);
        } else {
            assert(all[n] == space);
        }
        lemma_word_len_is(all, n);
        assert(all.take(n) =~= a.take(n));
        assert(all.skip(n) =~= a.skip(n) + seq![space] + b);
        law_words_are_parted(a.skip(n), space, b);
        assert(words(all) =~= words(a) + words(b));
    }
    if (forall|i: int| 0 <= i < a.len() ==> !is_white(#[trigger] a[i])) && a.len() > 0 {
        lemma_words_of_word(a);
    }
}

/// White space around a text is taken off, however much there is, and nothing
/// else: what starts and ends with no white space is left as it is.
pub proof fn law_trimming(left: Seq<char>, s: Seq<char>, right: Seq<char>)
    requires
        forall|i: int| 0 <= i < left.len() ==> is_white(#[trigger] left[i]),
        forall|i: int| 0 <= i < right.len() ==> is_white(#[trigger] right[i]),
        s.len() > 0 ==> !is_white(s[0]) && !is_white(s.last()),
    ensures
        trimmed(left + s + right) == s,
    decreases left.len() + right.len(),
{
    let all = left + s + right;
    if s.len() == 0 {
        assert forall|i: int| 0 <= i < all.len() implies is_white(#[trigger] all[i]) by {
            if i < left.len() {
                assert(all[i] == left[i]);
            } else {
                assert(all[i] == right[i - left.len()]);
            }
        }
        lemma_trimmed_blank(all);
        assert(trimmed(all) =~= s);
    } else if left.len() > 0 {
        assert(is_white(left[0]));
        assert(all[0] == left[0]);
        assert(all.skip(1) =~= left.skip(1) + s + right);
        assert forall|i: int| 0 <= i < left.skip(1).len() implies is_white(
            #[trigger] left.skip(1)[i],
        ) by {
            assert(left.skip(1)[i] == left[i + 1]);
        }
        law_trimming(left.skip(1), s, right);
    } else if right.len() > 0 {
        let shorter = right.drop_last();
        assert forall|i: int| 0 <= i < shorter.len() implies is_white(#[trigger] shorter[i]) by {
            assert(shorter[i] == right[i]);
        }
        law_trimming(left, s, shorter);
        assert(is_white(right[right.len() - 1]));
        assert(all[0] == s[0]);
        assert((left + s + shorter)[0] == s[0]);
        assert(all.drop_last() =~= left + s + shorter);
        assert(all.last() == right.last());
    } else {
        assert(all =~= s);
    }
}

/// A number is written in base ten: a number below ten by its digit, any other
/// by the digits of its tenth part and one digit more.
pub proof fn law_decimal_digits(n: nat, d: nat)
    requires
        d < 10,
    ensures
        decimal(d) == seq!["0123456789"@[d as int]],
        n > 0 ==> decimal(10 * n + d) == decimal(n) + seq!["0123456789"@[d as int]],
        n > 0 ==> signed_decimal(-n) == seq!['-'] + decimal(n),
        signed_decimal(n as int) == decimal(n),
{
    reveal_strlit("0123456789");
    assert(digit(d) == "0123456789"@[d as int]);
    if n > 0 {
        assert((10 * n + d) / 10 == n);
        assert((10 * n + d) % 10 == d);
        assert(decimal(10 * n + d) =~= decimal(n) + seq![digit(d)]);
    }
}

/// A text is read as a number exactly where it is made of digits, with a plus
/// sign before them perhaps, and the number fits; zeros before it change
/// nothing.
pub proof fn law_numbers_are_read(s: Seq<char>, n: nat)
    ensures
        n <= u32::MAX ==> read_u32(decimal(n)) == Some(n as u32),
        n <= u32::MAX ==> read_u32(seq!['+'] + decimal(n)) == Some(n as u32),
        n > u32::MAX ==> read_u32(decimal(n)) is None,
        read_u32(s) is Some ==> s.len() > 0 && (s[0] == '+' || '0' <= s[0] <= '9') && (forall|i: int|
            0 < i < s.len() ==> '0' <= #[trigger] s[i] <= '9'),
        s.len() > 0 && s[0] != '+' ==> read_u32(seq!['0'] + s) == read_u32(s),
        s.len() > 0 && s[0] != '+' ==> read_u32(seq!['+'] + s) == read_u32(s),
        s == seq!['+'] ==> read_u32(s) is None,
{
    lemma_decimal(n);
    assert(is_digit(decimal(n)[0]));
    assert((seq!['+'] + decimal(n)).skip(1) =~= decimal(n));
    assert((seq!['+'] + s).skip(1) =~= s);
    if read_u32(s) is Some && s[0] == '+' {
        assert forall|i: int| 0 < i < s.len() implies '0' <= #[trigger] s[i] <= '9' by {
            assert(s.skip(1)[i - 1] == s[i]);
            assert(is_digit(s.skip(1)[i - 1]));
        }
    } else if read_u32(s) is Some {
        assert forall|i: int| 0 <= i < s.len() implies '0' <= #[trigger] s[i] <= '9' by {
            assert(is_digit(s[i]));
        }
    }
    if s.len() > 0 && s[0] != '+' {
        let longer = seq!['0'] + s;
        lemma_leading_zero(s);
        if all_digits(s) {
            assert forall|i: int| 0 <= i < longer.len() implies is_digit(#[trigger] longer[i]) by {
                if i > 0 {
                    assert(longer[i] == s[i - 1]);
                    assert(is_digit(s[i - 1]));
                }
            }
        }
        if all_digits(longer) {
            assert forall|i: int| 0 <= i < s.len() implies is_digit(#[trigger] s[i]) by {
                assert(is_digit(longer[i + 1]));
            }
        }
    }
}

/// A zero before the digits of a number changes nothing of it.
proof fn lemma_leading_zero(s: Seq<char>)
    ensures
        digits_value(seq!['0'] + s) == digits_value(s),
    decreases s.len(),
{
    let longer = seq!['0'] + s;
    if s.len() > 0 {
        assert(longer.drop_last() =~= seq!['0'] + s.drop_last());
        lemma_leading_zero(s.drop_last());
    } else {
        assert(longer.drop_last() =~= s);
    }
}

/// Texts are ordered by the first character in which they differ, and a text
/// comes before any that goes on where it ends.
pub proof fn law_first_difference_decides(
    common: Seq<char>,
    c: char,
    a: Seq<char>,
    d: char,
    b: Seq<char>,
)
    ensures
        c < d ==> precedes(common + seq![c] + a, common + seq![d] + b),
        c < d ==> !precedes(common + seq![d] + b, common + seq![c] + a),
        precedes(common, common + seq![c] + a),
        !precedes(common + seq![c] + a, common),
        !precedes(common, common),
    decreases common.len(),
{
    let x = common + seq![c] + a;
    let y = common + seq![d] + b;
    if common.len() > 0 {
        law_first_difference_decides(common.skip(1), c, a, d, b);
        assert(x.skip(1) =~= common.skip(1) + seq![c] + a);
        assert(y.skip(1) =~= common.skip(1) + seq![d] + b);
        assert(x[0] == common[0] && y[0] == common[0]);
    } else {
        assert(x[0] == c && y[0] == d);
    }
}

/// Joining puts the separator between every two texts of a list and nowhere
/// else.
pub proof fn law_joining(list: Seq<Seq<char>>, more: Seq<char>, separator: Seq<char>)
    ensures
        list.len() == 0 ==> joined(list, separator).len() == 0,
        joined(seq![more], separator) == more,
        list.len() > 0 ==> joined(list.push(more), separator) == joined(list, separator)
            + separator + more,
{
    assert(list.push(more).drop_last() =~= list);
}

/// What is found is the first occurrence, and nothing is found only where there
/// is none.
pub proof fn law_first_occurrence_is_found(s: Seq<char>, pattern: Seq<char>)
    ensures
        match find(s, pattern) {
            Some(at) => at + pattern.len() <= s.len() && s.subrange(
                at as int,
                (at + pattern.len()) as int,
            ) == pattern && forall|i: int|
                0 <= i < at ==> #[trigger] s.subrange(i, i + pattern.len()) != pattern,
            None => forall|i: int|
                0 <= i && i + pattern.len() <= s.len() ==> #[trigger] s.subrange(
                    i,
                    i + pattern.len(),
                ) != pattern,
        },
    decreases s.len(),
{
    let n = pattern.len() as int;
    if pattern.is_prefix_of(s) {
    } else if s.len() > 0 {
        let rest = s.skip(1);
        law_first_occurrence_is_found(rest, pattern);
        match find(rest, pattern) {
            Some(at) => {
                let i = at as int;
                assert(s.subrange(i + 1, i + 1 + n) =~= rest.subrange(i, i + n));
                assert forall|i: int| 0 <= i < at + 1 implies #[trigger] s.subrange(i, i + n)
                    != pattern by {
                    if i > 0 {
                        assert(s.subrange(i, i + n) =~= rest.subrange(i - 1, i - 1 + n));
                    }
                }
            },
            None => {
                assert forall|i: int| 0 <= i && i + n <= s.len() implies #[trigger] s.subrange(
                    i,
                    i + n,
                ) != pattern by {
                    if i > 0 {
                        assert(s.subrange(i, i + n) =~= rest.subrange(i - 1, i - 1 + n));
                    }
                }
            },
        }
    }
}

/// What was put at the end or the start of a text can be taken off again, and
/// from a text that has it not nothing comes off. Taken off as often as it is
/// there, it comes off to the last.
pub proof fn law_endings_come_off(s: Seq<char>, part: Seq<char>)
    ensures
        without_suffix(s + part, part) == Some(s),
        without_prefix(part + s, part) == Some(s),
        without_suffix(s, part) matches Some(rest) ==> s == rest + part,
        without_prefix(s, part) matches Some(rest) ==> s == part + rest,
        part.len() > 0 ==> without_suffixes(s + part, part) == without_suffixes(s, part),
        !part.is_suffix_of(s) ==> without_suffixes(s, part) == s,
{
    let n = s.len() as int;
    let k = part.len() as int;
    assert((s + part).subrange(n, n + k) =~= part);
    assert((s + part).take(n) =~= s);
    assert((part + s).subrange(0, k) =~= part);
    assert((part + s).skip(k) =~= s);
    if part.is_suffix_of(s) {
        assert(s =~= s.take(n - k) + part);
    }
    if part.is_prefix_of(s) {
        assert(s =~= part + s.skip(k));
    }
}

/// What stands between the first opening and the closing character that follows
/// it is read from a text. Nothing is read only where there is no opening, or
/// nothing closes the first one.
pub proof fn law_enclosed_text_is_read(s: Seq<char>, open: Seq<char>, close: char)
    ensures
        match enclosed(s, open, close) {
            Some(text) => exists|at: int|
                #![trigger s.subrange(at, at + open.len())]
                {
                    &&& 0 <= at
                    &&& at + open.len() + text.len() < s.len()
                    &&& s.subrange(at, at + open.len()) == open
                    &&& s.subrange(at + open.len(), at + open.len() + text.len()) == text
                    &&& s[at + open.len() + text.len()] == close
                    &&& !text.contains(close)
                    &&& forall|i: int|
                        0 <= i < at ==> #[trigger] s.subrange(i, i + open.len()) != open
                },
            None => forall|at: int|
                0 <= at && at + open.len() <= s.len() && #[trigger] s.subrange(at, at + open.len())
                    == open && (forall|i: int|
                    0 <= i < at ==> #[trigger] s.subrange(i, i + open.len()) != open) ==> !s.skip(
                    at + open.len(),
                ).contains(close),
        },
{
    law_first_occurrence_is_found(s, open);
    match find(s, open) {
        Some(found) => {
            let at = found as int;
            let rest = s.skip(at + open.len());
            lemma_before_char(rest, close);
            let n = before_char(rest, close) as int;
            if n < rest.len() {
                let text = rest.take(n);
                assert(s.subrange(at + open.len(), at + open.len() + text.len()) =~= text);
                assert(s.subrange(at, at + open.len()) == open);
                assert(s[at + open.len() + n] == rest[n]);
                if text.contains(close) {
                    let i = choose|i: int| 0 <= i < text.len() && text[i] == close;
                    assert(rest[i] == close);
                }
            } else {
                assert forall|other: int|
                    0 <= other && other + open.len() <= s.len() && #[trigger] s.subrange(
                        other,
                        other + open.len(),
                    ) == open && (forall|i: int|
                        0 <= i < other ==> #[trigger] s.subrange(i, i + open.len())
                            != open) implies !s.skip(other + open.len()).contains(close) by {
                    assert(s.subrange(at, at + open.len()) == open);
                    assert(other == at);
                    if rest.contains(close) {
                        let i = choose|i: int| 0 <= i < rest.len() && rest[i] == close;
                        assert(rest[i] != close);
                    }
                }
            }
        },
        None => {},
    }
}

} // verus!
