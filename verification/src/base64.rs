//! Base64 with the standard alphabet and padding: three bytes become four
//! characters, and back.

use vstd::prelude::*;
use vstd::utf8::{is_ascii_chars, is_ascii_chars_encode_utf8};

verus! {

/// The character that stands for a group of six bits.
pub open spec fn sextet_char(value: int) -> char
    recommends
        0 <= value < 64,
{
    if value < 26 {
        (65 + value) as char
    } else if value < 52 {
        (71 + value) as char
    } else if value < 62 {
        (value - 4) as char
    } else if value == 62 {
        '+'
    } else {
        '/'
    }
}

/// The group of six bits that the character with the code `code` stands for,
/// if it stands for one.
pub open spec fn code_sextet(code: int) -> Option<int> {
    if 65 <= code <= 90 {
        Some(code - 65)
    } else if 97 <= code <= 122 {
        Some(code - 71)
    } else if 48 <= code <= 57 {
        Some(code + 4)
    } else if code == 43 {
        Some(62)
    } else if code == 47 {
        Some(63)
    } else {
        None
    }
}

/// The group of six bits that `c` stands for, if it stands for one.
pub open spec fn char_sextet(c: char) -> Option<int> {
    code_sextet(c as int)
}

/// The text of `bytes` in base64.
pub open spec fn encoded(bytes: Seq<u8>) -> Seq<char>
    decreases bytes.len(),
{
    if bytes.len() == 0 {
        Seq::empty()
    } else if bytes.len() == 1 {
        let b0 = bytes[0] as int;
        seq![sextet_char(b0 / 4), sextet_char((b0 % 4) * 16), '=', '=']
    } else if bytes.len() == 2 {
        let b0 = bytes[0] as int;
        let b1 = bytes[1] as int;
        seq![
            sextet_char(b0 / 4),
            sextet_char((b0 % 4) * 16 + b1 / 16),
            sextet_char((b1 % 16) * 4),
            '=',
        ]
    } else {
        let b0 = bytes[0] as int;
        let b1 = bytes[1] as int;
        let b2 = bytes[2] as int;
        seq![
            sextet_char(b0 / 4),
            sextet_char((b0 % 4) * 16 + b1 / 16),
            sextet_char((b1 % 16) * 4 + b2 / 64),
            sextet_char(b2 % 64),
        ] + encoded(bytes.skip(3))
    }
}

/// The bytes that `text` is the base64 of, if it is the base64 of any: its
/// length is a multiple of four, only its last group may be padded, and the
/// bits that a padded group leaves unused are zero.
pub open spec fn decoded(text: Seq<char>) -> Option<Seq<u8>>
    decreases text.len(),
{
    if text.len() == 0 {
        Some(Seq::empty())
    } else if text.len() < 4 {
        None
    } else if text.len() == 4 && text[3] == '=' {
        if text[2] == '=' {
            match (char_sextet(text[0]), char_sextet(text[1])) {
                (Some(s0), Some(s1)) => if s1 % 16 == 0 {
                    Some(seq![(s0 * 4 + s1 / 16) as u8])
                } else {
                    None
                },
                _ => None,
            }
        } else {
            match (char_sextet(text[0]), char_sextet(text[1]), char_sextet(text[2])) {
                (Some(s0), Some(s1), Some(s2)) => if s2 % 4 == 0 {
                    Some(seq![(s0 * 4 + s1 / 16) as u8, ((s1 % 16) * 16 + s2 / 4) as u8])
                } else {
                    None
                },
                _ => None,
            }
        }
    } else {
        match (
            char_sextet(text[0]),
            char_sextet(text[1]),
            char_sextet(text[2]),
            char_sextet(text[3]),
        ) {
            (Some(s0), Some(s1), Some(s2), Some(s3)) => match decoded(text.skip(4)) {
                Some(rest) => Some(
                    seq![
                        (s0 * 4 + s1 / 16) as u8,
                        ((s1 % 16) * 16 + s2 / 4) as u8,
                        ((s2 % 4) * 64 + s3) as u8,
                    ] + rest,
                ),
                None => None,
            },
            _ => None,
        }
    }
}

/// A character of the alphabet stands for the group of bits it was picked
/// for, and is never the padding character.
pub proof fn lemma_sextet_char(value: int)
    requires
        0 <= value < 64,
    ensures
        char_sextet(sextet_char(value)) == Some(value),
        sextet_char(value) != '=',
        sextet_char(value) as int <= 127,
{
}

/// Decoding undoes encoding.
pub proof fn lemma_decoded_encoded(bytes: Seq<u8>)
    ensures
        decoded(encoded(bytes)) == Some(bytes),
    decreases bytes.len(),
{
    let text = encoded(bytes);
    if bytes.len() == 0 {
        assert(bytes =~= Seq::<u8>::empty());
    } else if bytes.len() == 1 {
        let b0 = bytes[0] as int;
        lemma_sextet_char(b0 / 4);
        lemma_sextet_char((b0 % 4) * 16);
        assert(decoded(text).unwrap() =~= bytes);
    } else if bytes.len() == 2 {
        let b0 = bytes[0] as int;
        let b1 = bytes[1] as int;
        lemma_sextet_char(b0 / 4);
        lemma_sextet_char((b0 % 4) * 16 + b1 / 16);
        lemma_sextet_char((b1 % 16) * 4);
        assert(decoded(text).unwrap() =~= bytes);
    } else {
        let b0 = bytes[0] as int;
        let b1 = bytes[1] as int;
        let b2 = bytes[2] as int;
        lemma_sextet_char(b0 / 4);
        lemma_sextet_char((b0 % 4) * 16 + b1 / 16);
        lemma_sextet_char((b1 % 16) * 4 + b2 / 64);
        lemma_sextet_char(b2 % 64);
        lemma_decoded_encoded(bytes.skip(3));
        assert(text.skip(4) =~= encoded(bytes.skip(3)));
        assert(decoded(text).unwrap() =~= bytes);
    }
}

/// Only text made of ASCII characters is the base64 of anything.
pub proof fn lemma_decoded_is_ascii(text: Seq<char>)
    requires
        decoded(text) is Some,
    ensures
        is_ascii_chars(text),
    decreases text.len(),
{
    if text.len() >= 4 && !(text.len() == 4 && text[3] == '=') {
        lemma_decoded_is_ascii(text.skip(4));
        assert forall|i: int| 0 <= i < text.len() implies '\0' <= #[trigger] text[i]
            <= '\u{7f}' by {
            if i >= 4 {
                assert(text[i] == text.skip(4)[i - 4]);
            }
        }
    }
}

/// The character for a group of six bits.
fn sextet_to_char(value: u8) -> (c: char)
    requires
        value < 64,
    ensures
        c == sextet_char(value as int),
{
    if value < 26 {
        (65 + value) as char
    } else if value < 52 {
        (71 + value) as char
    } else if value < 62 {
        (value - 4) as char
    } else if value == 62 {
        '+'
    } else {
        '/'
    }
}

/// The group of six bits for the character with the code `code`.
fn sextet_of_code(code: u8) -> (value: Option<u8>)
    ensures
        match value {
            Some(value) => code_sextet(code as int) == Some(value as int) && value < 64,
            None => code_sextet(code as int) is None,
        },
{
    if 65 <= code && code <= 90 {
        Some(code - 65)
    } else if 97 <= code && code <= 122 {
        Some(code - 71)
    } else if 48 <= code && code <= 57 {
        Some(code + 4)
    } else if code == 43 {
        Some(62)
    } else if code == 47 {
        Some(63)
    } else {
        None
    }
}

/// Writes `bytes` in base64.
pub fn encode(bytes: &[u8]) -> (text: String)
    ensures
        text@ == encoded(bytes@),
{
    let mut text = String::new();
    let mut index: usize = 0;
    assert(bytes@.skip(0) =~= bytes@);
    assert(text@ + encoded(bytes@) =~= encoded(bytes@));
    while bytes.len() - index >= 3
        invariant
            index <= bytes@.len(),
            text@ + encoded(bytes@.skip(index as int)) == encoded(bytes@),
        decreases bytes@.len() - index,
    {
        let b0 = bytes[index];
        let b1 = bytes[index + 1];
        let b2 = bytes[index + 2];
        let ghost before = text@;
        let ghost rest = bytes@.skip(index as int);
        text.push(sextet_to_char(b0 / 4));
        text.push(sextet_to_char((b0 % 4) * 16 + b1 / 16));
        text.push(sextet_to_char((b1 % 16) * 4 + b2 / 64));
        text.push(sextet_to_char(b2 % 64));
        proof {
            assert(rest.skip(3) =~= bytes@.skip(index + 3));
            assert(text@ + encoded(rest.skip(3)) =~= before + encoded(rest));
        }
        index = index + 3;
    }
    let ghost before = text@;
    let ghost rest = bytes@.skip(index as int);
    if bytes.len() - index == 1 {
        let b0 = bytes[index];
        text.push(sextet_to_char(b0 / 4));
        text.push(sextet_to_char((b0 % 4) * 16));
        text.push('=');
        text.push('=');
    } else if bytes.len() - index == 2 {
        let b0 = bytes[index];
        let b1 = bytes[index + 1];
        text.push(sextet_to_char(b0 / 4));
        text.push(sextet_to_char((b0 % 4) * 16 + b1 / 16));
        text.push(sextet_to_char((b1 % 16) * 4));
        text.push('=');
    }
    assert(text@ =~= before + encoded(rest));
    text
}

/// Reads `text` as base64: the bytes it stands for, or nothing where it is
/// not the base64 of any bytes.
pub fn decode(text: &str) -> (bytes: Option<Vec<u8>>)
    ensures
        match bytes {
            Some(bytes) => decoded(text@) == Some(bytes@),
            None => decoded(text@) is None,
        },
{
    if !text.is_ascii() {
        proof {
            if decoded(text@) is Some {
                lemma_decoded_is_ascii(text@);
            }
        }
        return None;
    }
    let codes = text.as_bytes();
    proof {
        is_ascii_chars_encode_utf8(text@);
    }
    let mut bytes: Vec<u8> = Vec::new();
    let mut index: usize = 0;
    proof {
        assert(text@.skip(0) =~= text@);
        if decoded(text@) is Some {
            assert(bytes@ + decoded(text@).unwrap() =~= decoded(text@).unwrap());
        }
    }
    while index < codes.len()
        invariant
            index <= codes@.len(),
            codes@.len() == text@.len(),
            forall|i: int| 0 <= i < text@.len() ==> text@[i] as int == #[trigger] codes@[i] as int,
            decoded(text@) == match decoded(text@.skip(index as int)) {
                Some(rest) => Some(bytes@ + rest),
                None => None,
            },
        decreases codes@.len() - index,
    {
        let ghost rest = text@.skip(index as int);
        if codes.len() - index < 4 {
            return None;
        }
        let c0 = codes[index];
        let c1 = codes[index + 1];
        let c2 = codes[index + 2];
        let c3 = codes[index + 3];
        assert(rest[0] as int == c0 as int && rest[1] as int == c1 as int && rest[2] as int
            == c2 as int && rest[3] as int == c3 as int);
        let ghost before = bytes@;
        if codes.len() - index == 4 && c3 == 61 {
            if c2 == 61 {
                match (sextet_of_code(c0), sextet_of_code(c1)) {
                    (Some(s0), Some(s1)) => {
                        if s1 % 16 != 0 {
                            return None;
                        }
                        bytes.push(s0 * 4 + s1 / 16);
                    },
                    _ => {
                        return None;
                    },
                }
            } else {
                match (sextet_of_code(c0), sextet_of_code(c1), sextet_of_code(c2)) {
                    (Some(s0), Some(s1), Some(s2)) => {
                        if s2 % 4 != 0 {
                            return None;
                        }
                        bytes.push(s0 * 4 + s1 / 16);
                        bytes.push((s1 % 16) * 16 + s2 / 4);
                    },
                    _ => {
                        return None;
                    },
                }
            }
            assert(bytes@ =~= before + decoded(rest).unwrap());
            return Some(bytes);
        }
        match (sextet_of_code(c0), sextet_of_code(c1), sextet_of_code(c2), sextet_of_code(c3)) {
            (Some(s0), Some(s1), Some(s2), Some(s3)) => {
                bytes.push(s0 * 4 + s1 / 16);
                bytes.push((s1 % 16) * 16 + s2 / 4);
                bytes.push((s2 % 4) * 64 + s3);
                proof {
                    assert(rest.skip(4) =~= text@.skip(index + 4));
                    match decoded(rest.skip(4)) {
                        Some(tail) => {
                            assert(bytes@ + tail =~= before + decoded(rest).unwrap());
                        },
                        None => {},
                    }
                }
            },
            _ => {
                return None;
            },
        }
        index = index + 4;
    }
    assert(text@.skip(index as int) =~= Seq::<char>::empty());
    assert(bytes@ + Seq::<u8>::empty() =~= bytes@);
    Some(bytes)
}

} // verus!
