//! Hexadecimal text and the bytes it stands for.

use vstd::prelude::*;
use vstd::string::*;

verus! {

/// True for the characters `0`-`9`, `a`-`f` and `A`-`F`.
pub open spec fn is_hex_digit(c: char) -> bool {
    ('0' <= c <= '9') || ('a' <= c <= 'f') || ('A' <= c <= 'F')
}

/// The number a hexadecimal digit stands for; zero for any other character.
pub open spec fn digit_value(c: char) -> int {
    if '0' <= c <= '9' {
        c as int - '0' as int
    } else if 'a' <= c <= 'f' {
        c as int - 'a' as int + 10
    } else if 'A' <= c <= 'F' {
        c as int - 'A' as int + 10
    } else {
        0
    }
}

/// Text that stands for whole bytes: an even number of hexadecimal digits.
pub open spec fn is_hex(text: Seq<char>) -> bool {
    &&& text.len() % 2 == 0
    &&& forall|i: int| 0 <= i < text.len() ==> is_hex_digit(#[trigger] text[i])
}

/// The byte written by the two digits `hi` and `lo`.
pub open spec fn byte_of(hi: char, lo: char) -> u8 {
    (16 * digit_value(hi) + digit_value(lo)) as u8
}

/// The bytes that hexadecimal text stands for, two digits to a byte.
pub open spec fn hex_value(text: Seq<char>) -> Seq<u8> {
    Seq::new(text.len() / 2, |i: int| byte_of(text[2 * i], text[2 * i + 1]))
}

/// The same letter in either case, or the same character.
pub open spec fn same_ignoring_case(a: char, b: char) -> bool {
    ||| a == b
    ||| ('a' <= a <= 'z' && b as int == a as int - 32)
    ||| ('A' <= a <= 'Z' && b as int == a as int + 32)
}

/// Two texts that differ at most in the case of their letters.
pub open spec fn same_text_ignoring_case(s: Seq<char>, t: Seq<char>) -> bool {
    &&& s.len() == t.len()
    &&& forall|i: int| 0 <= i < s.len() ==> same_ignoring_case(#[trigger] s[i], t[i])
}

/// The error of the `hex` crate, carried through unread.
#[verifier::external_type_specification]
#[verifier::external_body]
pub struct ExFromHexError(hex::FromHexError);

/// Calls `hex::decode` on ASCII text. The crate accepts exactly the texts of
/// even length whose every byte is a hexadecimal digit of either case, and
/// returns for each pair of digits the byte `16 * high + low`.
#[verifier::external_body]
fn hex_decode(text: &str) -> (r: Result<Vec<u8>, hex::FromHexError>)
    requires
        is_ascii(text),
    ensures
        r is Ok <==> is_hex(text@),
        r matches Ok(bytes) ==> bytes@ == hex_value(text@),
{
    hex::decode(text)
}

/// Decodes hexadecimal text into bytes; `None` when the text is not
/// hexadecimal.
pub fn decode_hex(text: &str) -> (r: Option<Vec<u8>>)
    ensures
        r is Some <==> is_hex(text@),
        r matches Some(bytes) ==> bytes@ == hex_value(text@),
{
    if !text.is_ascii() {
        proof {
            let i = choose|i: int|
                0 <= i < text@.len() && !('\0' <= #[trigger] text@[i] <= '\u{7f}');
            assert(!is_hex_digit(text@[i]));
        }
        return None;
    }
    match hex_decode(text) {
        Ok(bytes) => Some(bytes),
        Err(_) => None,
    }
}

/// Hexadecimal decoding ignores the case of the digits: two texts that differ
/// only in letter case are both hexadecimal or both not, and stand for the
/// same bytes.
pub proof fn lemma_hex_ignores_case(s: Seq<char>, t: Seq<char>)
    requires
        same_text_ignoring_case(s, t),
    ensures
        is_hex(s) == is_hex(t),
        hex_value(s) == hex_value(t),
{
    assert forall|i: int| 0 <= i < s.len() implies is_hex_digit(s[i]) == is_hex_digit(t[i])
        && digit_value(s[i]) == digit_value(t[i]) by {
        assert(same_ignoring_case(s[i], t[i]));
    }
    assert(hex_value(s) =~= hex_value(t));
}

/// The lower-case digit for a number below sixteen.
pub open spec fn lower_digit(n: int) -> char {
    seq!['0', '1', '2', '3', '4', '5', '6', '7', '8', '9', 'a', 'b', 'c', 'd', 'e', 'f'][n]
}

/// The bytes written in lower-case hexadecimal behind `0x`.
pub open spec fn prefixed_hex(bytes: Seq<u8>) -> Seq<char> {
    seq!['0', 'x'] + Seq::new(
        2 * bytes.len(),
        |i: int|
            if i % 2 == 0 {
                lower_digit(bytes[i / 2] as int / 16)
            } else {
                lower_digit(bytes[i / 2] as int % 16)
            },
    )
}

/// The digits that [`prefixed_hex`] writes behind `0x` are hexadecimal and
/// stand for the bytes that were written.
pub proof fn lemma_prefixed_hex_decodes(bytes: Seq<u8>)
    ensures
        prefixed_hex(bytes).len() == 2 + 2 * bytes.len(),
        prefixed_hex(bytes)[0] == '0',
        prefixed_hex(bytes)[1] == 'x',
        is_hex(prefixed_hex(bytes).skip(2)),
        hex_value(prefixed_hex(bytes).skip(2)) == bytes,
{
    let digits = prefixed_hex(bytes).skip(2);
    assert forall|n: int| 0 <= n < 16 implies is_hex_digit(#[trigger] lower_digit(n))
        && digit_value(lower_digit(n)) == n by {
        assert(n == 0 || n == 1 || n == 2 || n == 3 || n == 4 || n == 5 || n == 6 || n == 7 || n
            == 8 || n == 9 || n == 10 || n == 11 || n == 12 || n == 13 || n == 14 || n == 15);
    }
    assert forall|i: int| 0 <= i < digits.len() implies is_hex_digit(#[trigger] digits[i]) by {
        let b = bytes[i / 2] as int;
        assert(0 <= b / 16 < 16 && 0 <= b % 16 < 16);
        assert(is_hex_digit(lower_digit(b / 16)) && is_hex_digit(lower_digit(b % 16)));
    }
    assert forall|k: int| 0 <= k < bytes.len() implies hex_value(digits)[k] == bytes[k] by {
        let b = bytes[k] as int;
        assert(0 <= b / 16 < 16 && 0 <= b % 16 < 16);
        assert(digits[2 * k] == lower_digit(b / 16));
        assert(digits[2 * k + 1] == lower_digit(b % 16));
        assert(digit_value(lower_digit(b / 16)) == b / 16);
        assert(digit_value(lower_digit(b % 16)) == b % 16);
    }
    assert(hex_value(digits) =~= bytes);
}

} // verus!
