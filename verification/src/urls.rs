//! Putting a text into one segment of a URL path.

use vstd::prelude::*;
use vstd::utf8::{
    char_is_scalar, decode_utf8, encode_scalar, encode_utf8, encode_utf8_decode_utf8,
    has_width_1_encoding, last_continuation_byte, leading_byte_width_1, leading_byte_width_2,
    leading_byte_width_3, leading_byte_width_4, second_last_continuation_byte,
    third_last_continuation_byte,
};

verus! {

/// The characters that a segment of a URL path may hold as they are: letters,
/// digits, and the marks that do not break the segment.
pub open spec fn is_segment_char(c: char) -> bool {
    ||| 'A' <= c <= 'Z'
    ||| 'a' <= c <= 'z'
    ||| '0' <= c <= '9'
    ||| c == '-'
    ||| c == '.'
    ||| c == '_'
    ||| c == '~'
    ||| c == '!'
    ||| c == '$'
    ||| c == '&'
    ||| c == '\''
    ||| c == '('
    ||| c == ')'
    ||| c == '*'
    ||| c == '+'
    ||| c == ','
    ||| c == ';'
    ||| c == '='
    ||| c == ':'
    ||| c == '@'
}

/// The hexadecimal digit, in upper case, for a number below sixteen.
pub open spec fn hex_digit(n: int) -> char {
    if n < 10 {
        ('0' as int + n) as char
    } else {
        ('A' as int + n - 10) as char
    }
}

/// A byte written as a percent sign and two hexadecimal digits.
pub open spec fn percent(b: u8) -> Seq<char> {
    seq!['%', hex_digit(b as int / 16), hex_digit(b as int % 16)]
}

/// Bytes written one after the other as percent signs and digits.
pub open spec fn percent_all(bytes: Seq<u8>) -> Seq<char>
    decreases bytes.len(),
{
    if bytes.len() == 0 {
        seq![]
    } else {
        percent(bytes[0]) + percent_all(bytes.skip(1))
    }
}

/// A character as it stands in a URL path: itself, or the bytes of its UTF-8
/// encoding.
pub open spec fn encoded_char(c: char) -> Seq<char> {
    if is_segment_char(c) {
        seq![c]
    } else {
        percent_all(encode_scalar(c as u32))
    }
}

/// A text as it stands in a URL path.
pub open spec fn url_encoded(s: Seq<char>) -> Seq<char>
    decreases s.len(),
{
    if s.len() == 0 {
        seq![]
    } else {
        encoded_char(s[0]) + url_encoded(s.skip(1))
    }
}

/// A byte of a UTF-8 encoding as it stands in a URL path.
spec fn encoded_byte(b: u8) -> Seq<char> {
    if is_segment_char(b as char) {
        seq![b as char]
    } else {
        percent(b)
    }
}

/// Bytes of a UTF-8 encoding as they stand in a URL path.
spec fn encoded_bytes(bytes: Seq<u8>) -> Seq<char>
    decreases bytes.len(),
{
    if bytes.len() == 0 {
        seq![]
    } else {
        encoded_bytes(bytes.drop_last()) + encoded_byte(bytes.last())
    }
}

proof fn lemma_encoded_bytes_concat(a: Seq<u8>, b: Seq<u8>)
    ensures
        encoded_bytes(a + b) == encoded_bytes(a) + encoded_bytes(b),
    decreases b.len(),
{
    if b.len() == 0 {
        assert(a + b =~= a);
        assert(encoded_bytes(a) + encoded_bytes(b) =~= encoded_bytes(a));
    } else {
        assert((a + b).drop_last() =~= a + b.drop_last());
        lemma_encoded_bytes_concat(a, b.drop_last());
        assert(encoded_bytes(a + b) =~= encoded_bytes(a) + encoded_bytes(b));
    }
}

/// Bytes beyond ASCII all become percent signs and digits.
proof fn lemma_high_bytes(bytes: Seq<u8>)
    requires
        forall|i: int| 0 <= i < bytes.len() ==> #[trigger] bytes[i] >= 0x80,
    ensures
        encoded_bytes(bytes) == percent_all(bytes),
    decreases bytes.len(),
{
    if bytes.len() > 0 {
        let first = seq![bytes[0]];
        let rest = bytes.skip(1);
        assert(bytes =~= first + rest);
        lemma_encoded_bytes_concat(first, rest);
        lemma_high_bytes(rest);
        assert(encoded_bytes(first.drop_last()) =~= Seq::<char>::empty());
        assert(bytes[0] >= 0x80);
        assert(encoded_bytes(first) =~= percent(bytes[0]));
    }
}

/// The bytes of one character become what the character becomes.
proof fn lemma_char_bytes(c: char)
    ensures
        encoded_bytes(encode_scalar(c as u32)) == encoded_char(c),
{
    char_is_scalar(c);
    let v = c as u32;
    let bytes = encode_scalar(v);
    if has_width_1_encoding(v) {
        assert(leading_byte_width_1(v) == v) by (bit_vector)
            requires
                v <= 0x7f,
        ;
        assert(bytes.drop_last() =~= Seq::<u8>::empty());
        assert(encoded_bytes(bytes.drop_last()) =~= Seq::<char>::empty());
        assert(bytes.skip(1) =~= Seq::<u8>::empty());
        assert(percent_all(bytes.skip(1)) =~= Seq::<char>::empty());
        assert(percent_all(bytes) =~= percent(bytes[0]));
        assert(encoded_bytes(bytes) =~= encoded_char(c));
    } else {
        assert(leading_byte_width_2(v) >= 0x80) by (bit_vector);
        assert(leading_byte_width_3(v) >= 0x80) by (bit_vector);
        assert(leading_byte_width_4(v) >= 0x80) by (bit_vector);
        assert(last_continuation_byte(v) >= 0x80) by (bit_vector);
        assert(second_last_continuation_byte(v) >= 0x80) by (bit_vector);
        assert(third_last_continuation_byte(v) >= 0x80) by (bit_vector);
        lemma_high_bytes(bytes);
    }
}

/// Going through the bytes of a text comes to the same as going through its
/// characters.
proof fn lemma_text_bytes(s: Seq<char>)
    ensures
        encoded_bytes(encode_utf8(s)) == url_encoded(s),
    decreases s.len(),
{
    if s.len() > 0 {
        assert(s.drop_first() =~= s.skip(1));
        lemma_encoded_bytes_concat(encode_scalar(s[0] as u32), encode_utf8(s.drop_first()));
        lemma_char_bytes(s[0]);
        lemma_text_bytes(s.skip(1));
    }
}

/// The hexadecimal digit for a number below sixteen.
fn hex_char(n: u8) -> (c: char)
    requires
        n < 16,
    ensures
        c == hex_digit(n as int),
{
    if n < 10 {
        (48u8 + n) as char
    } else {
        (55u8 + n) as char
    }
}

/// Whether a character stands for itself in a URL path.
fn stands_for_itself(c: char) -> (r: bool)
    ensures
        r == is_segment_char(c),
{
    ('A' <= c && c <= 'Z') || ('a' <= c && c <= 'z') || ('0' <= c && c <= '9') || c == '-' || c
        == '.' || c == '_' || c == '~' || c == '!' || c == '$' || c == '&' || c == '\'' || c == '('
        || c == ')' || c == '*' || c == '+' || c == ',' || c == ';' || c == '=' || c == ':' || c
        == '@'
}

/// Encodes a text for one segment of a URL path. Only what would break the
/// segment is encoded.
pub fn urlencoding_minimal(s: &str) -> (out: String)
    ensures
        out@ == url_encoded(s@),
{
    let bytes = s.as_bytes();
    let mut out = String::new();
    for i in 0..bytes.len()
        invariant
            out@ == encoded_bytes(bytes@.take(i as int)),
    {
        let b = bytes[i];
        let ghost before = out@;
        assert(bytes@.take(i + 1).drop_last() =~= bytes@.take(i as int));
        if stands_for_itself(b as char) {
            out.push(b as char);
            assert(out@ =~= before + encoded_byte(b));
        } else {
            out.push('%');
            out.push(hex_char(b / 16));
            out.push(hex_char(b % 16));
            assert(out@ =~= before + encoded_byte(b));
        }
    }
    proof {
        assert(bytes@.take(bytes@.len() as int) =~= bytes@);
        lemma_text_bytes(s@);
    }
    out
}

// ---------------------------------------------------------------------------
// Laws
// ---------------------------------------------------------------------------

/// A text of characters that stand for themselves is left as it is.
pub proof fn law_segment_is_kept(s: Seq<char>)
    requires
        forall|i: int| 0 <= i < s.len() ==> is_segment_char(#[trigger] s[i]),
    ensures
        url_encoded(s) == s,
    decreases s.len(),
{
    if s.len() > 0 {
        assert(is_segment_char(s[0]));
        law_segment_is_kept(s.skip(1));
        assert(url_encoded(s) =~= s);
    } else {
        assert(url_encoded(s) =~= s);
    }
}

/// An encoded text holds nothing that could break a path segment: only
/// characters that stand for themselves, and percent signs.
pub proof fn law_encoded_is_safe(s: Seq<char>)
    ensures
        forall|i: int|
            0 <= i < url_encoded(s).len() ==> is_segment_char(#[trigger] url_encoded(s)[i])
                || url_encoded(s)[i] == '%',
    decreases s.len(),
{
    if s.len() > 0 {
        law_encoded_is_safe(s.skip(1));
        lemma_percent_is_safe(encode_scalar(s[0] as u32));
        let head = encoded_char(s[0]);
        assert forall|i: int| 0 <= i < url_encoded(s).len() implies is_segment_char(
            #[trigger] url_encoded(s)[i],
        ) || url_encoded(s)[i] == '%' by {
            if i < head.len() {
                assert(url_encoded(s)[i] == head[i]);
            } else {
                assert(url_encoded(s)[i] == url_encoded(s.skip(1))[i - head.len()]);
            }
        }
    }
}

proof fn lemma_percent_is_safe(bytes: Seq<u8>)
    ensures
        forall|i: int|
            0 <= i < percent_all(bytes).len() ==> is_segment_char(#[trigger] percent_all(bytes)[i])
                || percent_all(bytes)[i] == '%',
    decreases bytes.len(),
{
    if bytes.len() > 0 {
        lemma_percent_is_safe(bytes.skip(1));
        let head = percent(bytes[0]);
        assert forall|i: int| 0 <= i < percent_all(bytes).len() implies is_segment_char(
            #[trigger] percent_all(bytes)[i],
        ) || percent_all(bytes)[i] == '%' by {
            if i < 3 {
                assert(percent_all(bytes)[i] == head[i]);
            } else {
                assert(percent_all(bytes)[i] == percent_all(bytes.skip(1))[i - 3]);
            }
        }
    }
}

/// The number below sixteen that a hexadecimal digit in upper case writes.
pub open spec fn hex_value(c: char) -> int {
    if c <= '9' {
        c as int - '0' as int
    } else {
        c as int - 'A' as int + 10
    }
}

/// The bytes that an encoded text stands for.
pub open spec fn url_decoded(s: Seq<char>) -> Seq<u8>
    decreases s.len(),
{
    if s.len() == 0 {
        seq![]
    } else if s[0] == '%' && s.len() >= 3 {
        seq![(16 * hex_value(s[1]) + hex_value(s[2])) as u8] + url_decoded(s.skip(3))
    } else {
        seq![s[0] as u8] + url_decoded(s.skip(1))
    }
}

proof fn lemma_percent_decoded(bytes: Seq<u8>, rest: Seq<char>)
    ensures
        url_decoded(percent_all(bytes) + rest) == bytes + url_decoded(rest),
    decreases bytes.len(),
{
    let s = percent_all(bytes) + rest;
    if bytes.len() == 0 {
        assert(s =~= rest);
        assert(bytes + url_decoded(rest) =~= url_decoded(rest));
    } else {
        lemma_percent_decoded(bytes.skip(1), rest);
        assert(s.skip(3) =~= percent_all(bytes.skip(1)) + rest);
        let b = bytes[0];
        assert(16 * hex_value(hex_digit(b as int / 16)) + hex_value(hex_digit(b as int % 16)) == b);
        assert(url_decoded(s) =~= bytes + url_decoded(rest));
    }
}

proof fn lemma_url_decoded(s: Seq<char>)
    ensures
        url_decoded(url_encoded(s)) == encode_utf8(s),
    decreases s.len(),
{
    if s.len() > 0 {
        lemma_url_decoded(s.skip(1));
        assert(s.drop_first() =~= s.skip(1));
        let rest = url_encoded(s.skip(1));
        let v = s[0] as u32;
        if is_segment_char(s[0]) {
            assert(leading_byte_width_1(v) == v) by (bit_vector)
                requires
                    v <= 0x7f,
            ;
            assert(url_encoded(s).skip(1) =~= rest);
            assert(url_decoded(url_encoded(s)) =~= encode_utf8(s));
        } else {
            lemma_percent_decoded(encode_scalar(v), rest);
        }
    }
}

/// Decoding an encoded text gives the text back, so different texts never
/// share a path segment.
pub proof fn law_encoding_is_undone(s: Seq<char>)
    ensures
        decode_utf8(url_decoded(url_encoded(s))) == s,
{
    lemma_url_decoded(s);
    encode_utf8_decode_utf8(s);
}

/// Whether a character is a letter or digit of ASCII, or one of the marks that a
/// segment of a URL path may hold.
pub open spec fn is_kept(c: char) -> bool {
    ||| 'A' <= c <= 'Z'
    ||| 'a' <= c <= 'z'
    ||| '0' <= c <= '9'
    ||| "-._~!$&'()*+,;=:@"@.contains(c)
}

/// What a character that may stand in a segment is, told by either list.
proof fn lemma_kept(c: char)
    ensures
        is_kept(c) <==> is_segment_char(c),
{
    reveal_strlit("-._~!$&'()*+,;=:@");
    let marks = "-._~!$&'()*+,;=:@"@;
    assert(marks[0] == '-' && marks[1] == '.' && marks[2] == '_' && marks[3] == '~');
    assert(marks[4] == '!' && marks[5] == '$' && marks[6] == '&' && marks[7] == '\'');
    assert(marks[8] == '(' && marks[9] == ')' && marks[10] == '*' && marks[11] == '+');
    assert(marks[12] == ',' && marks[13] == ';' && marks[14] == '=' && marks[15] == ':');
    assert(marks[16] == '@');
}

/// A text is encoded character by character. A character that may stand in a
/// segment of a URL path is left as it is.
pub proof fn law_encoding_goes_by_characters(a: Seq<char>, b: Seq<char>, c: char)
    ensures
        url_encoded(a + b) == url_encoded(a) + url_encoded(b),
        is_kept(c) ==> url_encoded(seq![c]) == seq![c],
        url_encoded(Seq::empty()).len() == 0,
    decreases a.len(),
{
    if a.len() == 0 {
        assert(a + b =~= b);
        assert(url_encoded(a) + url_encoded(b) =~= url_encoded(b));
    } else {
        assert((a + b).skip(1) =~= a.skip(1) + b);
        law_encoding_goes_by_characters(a.skip(1), b, c);
        assert(url_encoded(a + b) =~= url_encoded(a) + url_encoded(b));
    }
    lemma_kept(c);
    lemma_one_char(c);
}

/// One character is encoded by itself.
proof fn lemma_one_char(c: char)
    ensures
        url_encoded(seq![c]) == encoded_char(c),
{
    let one = seq![c];
    assert(one.skip(1) =~= Seq::<char>::empty());
    assert(url_encoded(one.skip(1)).len() == 0);
    assert(url_encoded(one) =~= encoded_char(c));
}

/// Bytes take three characters each.
proof fn lemma_percent_at(bytes: Seq<u8>, at: int)
    requires
        0 <= at < bytes.len(),
    ensures
        percent_all(bytes).len() == 3 * bytes.len(),
        percent_all(bytes)[3 * at] == '%',
        percent_all(bytes)[3 * at + 1] == hex_digit(bytes[at] as int / 16),
        percent_all(bytes)[3 * at + 2] == hex_digit(bytes[at] as int % 16),
    decreases bytes.len(),
{
    let rest = bytes.skip(1);
    if rest.len() == 0 {
        assert(percent_all(rest).len() == 0);
    } else {
        lemma_percent_at(
            rest,
            if at > 0 {
                at - 1
            } else {
                0
            },
        );
        if at > 0 {
            assert(rest[at - 1] == bytes[at]);
            assert(percent_all(bytes)[3 * at] == percent_all(rest)[3 * (at - 1)]);
            assert(percent_all(bytes)[3 * at + 1] == percent_all(rest)[3 * (at - 1) + 1]);
            assert(percent_all(bytes)[3 * at + 2] == percent_all(rest)[3 * (at - 1) + 2]);
        }
    }
}

/// A character that may not stand in a segment is encoded byte by byte: for
/// each byte of its UTF-8 encoding a percent sign and two hexadecimal digits in
/// upper case.
pub proof fn law_other_characters_become_bytes(c: char, at: int)
    requires
        !is_kept(c),
        0 <= at < encode_scalar(c as u32).len(),
    ensures
        ({
            let code = url_encoded(seq![c]);
            let byte = encode_scalar(c as u32)[at] as int;
            &&& code.len() == 3 * encode_scalar(c as u32).len()
            &&& code[3 * at] == '%'
            &&& code[3 * at + 1] == "0123456789ABCDEF"@[byte / 16]
            &&& code[3 * at + 2] == "0123456789ABCDEF"@[byte % 16]
        }),
{
    lemma_kept(c);
    lemma_one_char(c);
    lemma_percent_at(encode_scalar(c as u32), at);
    reveal_strlit("0123456789ABCDEF");
    let digits = "0123456789ABCDEF"@;
    assert forall|n: int| 0 <= n < 16 implies #[trigger] hex_digit(n) == digits[n] by {
        assert(digits[0] == '0' && digits[1] == '1' && digits[2] == '2' && digits[3] == '3');
        assert(digits[4] == '4' && digits[5] == '5' && digits[6] == '6' && digits[7] == '7');
        assert(digits[8] == '8' && digits[9] == '9' && digits[10] == 'A' && digits[11] == 'B');
        assert(digits[12] == 'C' && digits[13] == 'D' && digits[14] == 'E' && digits[15] == 'F');
    }
}

/// An encoded text breaks no path: it holds no slash, no question mark, no hash
/// sign and no space, and nothing beyond ASCII.
pub proof fn law_encoded_breaks_no_path(s: Seq<char>, at: int)
    requires
        0 <= at < url_encoded(s).len(),
    ensures
        is_kept(url_encoded(s)[at]) || url_encoded(s)[at] == '%',
        !"/?# \\\"<>[]^`{|}"@.contains(url_encoded(s)[at]),
        '\u{20}' < url_encoded(s)[at] < '\u{7f}',
{
    law_encoded_is_safe(s);
    let c = url_encoded(s)[at];
    assert(is_segment_char(c) || c == '%');
    lemma_kept(c);
    reveal_strlit("/?# \\\"<>[]^`{|}");
}

} // verus!
