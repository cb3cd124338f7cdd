//! What a recipient address is, character by character.

use vstd::prelude::*;
use vstd::utf8::{encode_scalar, encode_utf8};

use super::{address_byte, has_empty_level, valid_address, validate_address, ProtocolError};

verus! {

/// Whether a character may stand in a level of an address: a letter or a digit of ASCII, `-`
/// or `_`.
pub open spec fn level_char(c: char) -> bool {
    ||| 'a' <= c && c <= 'z'
    ||| 'A' <= c && c <= 'Z'
    ||| '0' <= c && c <= '9'
    ||| c == '-'
    ||| c == '_'
}

/// Whether a text has an empty level: it begins or ends with `:`, or two follow each other.
pub open spec fn empty_level(text: Seq<char>) -> bool {
    ||| text.len() > 0 && text[0] == ':'
    ||| text.len() > 0 && text[text.len() - 1] == ':'
    ||| char_pair(text)
}

/// Whether a text is made of the characters of levels and of `:`.
pub open spec fn address_chars(text: Seq<char>) -> bool {
    forall|i: int|
        #![trigger text[i]]
        0 <= i < text.len() ==> level_char(text[i]) || text[i] == ':'
}

/// A character of ASCII is encoded as itself, and any other by bytes beyond ASCII.
proof fn lemma_encoded_char(c: char)
    ensures
        (c as int) < 128 ==> encode_scalar(c as u32).len() == 1 && encode_scalar(c as u32)[0]
            == c as int,
        (c as int) >= 128 ==> encode_scalar(c as u32).len() >= 2 && forall|i: int|
            #![trigger encode_scalar(c as u32)[i]]
            0 <= i < encode_scalar(c as u32).len() ==> encode_scalar(c as u32)[i] >= 128,
{
    let u = c as u32;
    assert(u == c as int);
    if u < 128 {
        assert(u < 128 ==> (u & 0x7F) as u8 == u) by (bit_vector);
    } else {
        assert(0xC0u8 | ((u >> 6) & 0x1F) as u8 >= 128) by (bit_vector);
        assert(0xE0u8 | ((u >> 12) & 0x0F) as u8 >= 128) by (bit_vector);
        assert(0xF0u8 | ((u >> 18) & 0x7) as u8 >= 128) by (bit_vector);
        assert(0x80u8 | (u & 0x3F) as u8 >= 128) by (bit_vector);
        assert(0x80u8 | ((u >> 6) & 0x3F) as u8 >= 128) by (bit_vector);
        assert(0x80u8 | ((u >> 12) & 0x3F) as u8 >= 128) by (bit_vector);
    }
}

/// Whether a text has two separators in a row.
pub open spec fn char_pair(text: Seq<char>) -> bool {
    exists|i: int|
        #![trigger text[i]]
        0 <= i < text.len() - 1 && text[i] == ':' && text[i + 1] == ':'
}

/// Whether bytes have two separators in a row.
spec fn byte_pair(s: Seq<u8>) -> bool {
    exists|i: int| #![trigger s[i]] 0 <= i < s.len() - 1 && s[i] == 58 && s[i + 1] == 58
}

/// The ends of a text, and whether all of it is allowed, show in its bytes.
proof fn lemma_encoded_ends(text: Seq<char>)
    ensures
        ({
            let s = encode_utf8(text);
            &&& s.len() == 0 <==> text.len() == 0
            &&& text.len() > 0 ==> (s[0] == 58 <==> text[0] == ':')
            &&& text.len() > 0 ==> (s.last() == 58 <==> text[text.len() - 1] == ':')
            &&& (forall|i: int| 0 <= i < s.len() ==> address_byte(#[trigger] s[i]))
                <==> address_chars(text)
        }),
    decreases text.len(),
{
    let s = encode_utf8(text);
    if text.len() > 0 {
        let c = text[0];
        let e = encode_scalar(c as u32);
        let rest = text.drop_first();
        let t = encode_utf8(rest);
        lemma_encoded_char(c);
        lemma_encoded_ends(rest);
        assert(s == e + t);
        assert(s[0] == e[0]);
        assert(e[0] == 58 <==> c == ':');
        assert(e.last() == 58 <==> c == ':');
        if rest.len() > 0 {
            assert(s.last() == t.last());
            assert(rest[rest.len() - 1] == text[text.len() - 1]);
        } else {
            assert(s =~= e);
        }
        if forall|i: int| 0 <= i < s.len() ==> address_byte(#[trigger] s[i]) {
            assert forall|i: int| 0 <= i < t.len() implies address_byte(#[trigger] t[i]) by {
                assert(t[i] == s[i + e.len()]);
            }
            assert(address_byte(s[0]));
            assert forall|i: int| #![trigger text[i]] 0 <= i < text.len() implies level_char(
                text[i],
            ) || text[i] == ':' by {
                if i > 0 {
                    assert(rest[i - 1] == text[i]);
                }
            }
        }
        if address_chars(text) {
            assert(level_char(text[0]) || text[0] == ':');
            assert forall|i: int| #![trigger rest[i]] 0 <= i < rest.len() implies level_char(
                rest[i],
            ) || rest[i] == ':' by {
                assert(rest[i] == text[i + 1]);
            }
            assert forall|i: int| 0 <= i < s.len() implies address_byte(#[trigger] s[i]) by {
                if i > 0 {
                    assert(s[i] == t[i - 1]);
                }
            }
        }
    }
}

/// Two separators in a row in the bytes of a text are two in the text.
proof fn lemma_pair_decoded(text: Seq<char>, j: int)
    requires
        0 <= j < encode_utf8(text).len() - 1,
        encode_utf8(text)[j] == 58,
        encode_utf8(text)[j + 1] == 58,
    ensures
        char_pair(text),
    decreases text.len(),
{
    let s = encode_utf8(text);
    let c = text[0];
    let e = encode_scalar(c as u32);
    let rest = text.drop_first();
    let t = encode_utf8(rest);
    lemma_encoded_char(c);
    assert(s == e + t);
    if j >= e.len() {
        assert(t[j - e.len()] == s[j]);
        assert(t[j - e.len() + 1] == s[j + 1]);
        lemma_pair_decoded(rest, j - e.len());
        let i = choose|i: int|
            #![trigger rest[i]]
            0 <= i < rest.len() - 1 && rest[i] == ':' && rest[i + 1] == ':';
        assert(text[i + 1] == ':' && text[i + 1 + 1] == ':');
    } else {
        assert(e[j] == 58);
        assert(t[0] == 58);
        lemma_encoded_ends(rest);
        assert(rest.len() > 0 && rest[0] == ':');
        assert(text[0] == ':' && text[1] == rest[0]);
    }
}

/// Two separators in a row are encoded as two separators in a row.
proof fn lemma_pair_encoded(text: Seq<char>, i: int)
    requires
        0 <= i < text.len() - 1,
        text[i] == ':',
        text[i + 1] == ':',
    ensures
        exists|j: int|
            #![trigger encode_utf8(text)[j]]
            0 <= j < encode_utf8(text).len() - 1 && encode_utf8(text)[j] == 58 && encode_utf8(
                text,
            )[j + 1] == 58,
    decreases text.len(),
{
    let s = encode_utf8(text);
    let e = encode_scalar(text[0] as u32);
    let rest = text.drop_first();
    let t = encode_utf8(rest);
    lemma_encoded_char(text[0]);
    assert(s == e + t);
    if i == 0 {
        lemma_encoded_char(rest[0]);
        assert(t == encode_scalar(rest[0] as u32) + encode_utf8(rest.drop_first()));
        assert(s[0] == 58 && s[1] == 58);
    } else {
        assert(rest[i - 1] == text[i]);
        assert(rest[i - 1 + 1] == text[i + 1]);
        lemma_pair_encoded(rest, i - 1);
        let j = choose|j: int|
            #![trigger t[j]]
            0 <= j < t.len() - 1 && t[j] == 58 && t[j + 1] == 58;
        assert(s[j + e.len()] == 58 && s[j + e.len() + 1] == 58);
    }
}

/// What is known of the bytes of a text from its characters.
pub proof fn lemma_encoded_text(text: Seq<char>)
    ensures
        encode_utf8(text).len() == 0 <==> text.len() == 0,
        has_empty_level(encode_utf8(text)) <==> empty_level(text),
        (forall|i: int|
            0 <= i < encode_utf8(text).len() ==> address_byte(#[trigger] encode_utf8(text)[i]))
            <==> address_chars(text),
{
    let s = encode_utf8(text);
    lemma_encoded_ends(text);
    if byte_pair(s) {
        let j = choose|j: int|
            #![trigger s[j]]
            0 <= j < s.len() - 1 && s[j] == 58 && s[j + 1] == 58;
        lemma_pair_decoded(text, j);
    }
    if char_pair(text) {
        let i = choose|i: int|
            #![trigger text[i]]
            0 <= i < text.len() - 1 && text[i] == ':' && text[i + 1] == ':';
        lemma_pair_encoded(text, i);
    }
    assert(has_empty_level(s) <==> (s.len() > 0 && s[0] == 58) || (s.len() > 0 && s.last() == 58)
        || byte_pair(s));
}

/// An address is valid exactly if it is a text of ASCII letters, digits, `-`, `_` and `:` that
/// is not empty and has no empty level. The faults are reported in this order: that it is
/// empty, that a level is, that a character is not allowed.
pub proof fn law_valid_addresses(address: &str, r: Result<(), ProtocolError>)
    requires
        call_ensures(validate_address, (address,), r),
    ensures
        r is Ok <==> address@.len() > 0 && !empty_level(address@) && address_chars(address@),
        r matches Err(e) ==> if address@.len() == 0 {
            e matches ProtocolError::InvalidAddressFormat(text) && text@
                == "Address cannot be empty"@
        } else if empty_level(address@) {
            e == ProtocolError::EmptyAddressLevel
        } else {
            e matches ProtocolError::InvalidAddressFormat(text) && text@
                == "Invalid character in address"@
        },
{
    lemma_encoded_text(address@);
}

/// Every way to join levels that are not empty and hold letters, digits, `-` and `_` only is a
/// valid address: a level can be put in front of a valid address or stand alone.
pub proof fn law_levels_make_an_address(level: Seq<char>, rest: Seq<char>)
    requires
        level.len() > 0,
        forall|i: int| #![trigger level[i]] 0 <= i < level.len() ==> level_char(level[i]),
    ensures
        valid_address(encode_utf8(level)),
        valid_address(encode_utf8(level + seq![':'] + rest)) <==> valid_address(encode_utf8(rest)),
{
    let text = level + seq![':'] + rest;
    let n = level.len() as int;
    lemma_encoded_text(level);
    lemma_encoded_text(rest);
    lemma_encoded_text(text);
    assert(text[n] == ':');
    assert(forall|i: int| #![trigger text[i]] 0 <= i < n ==> text[i] == level[i]);
    assert(forall|i: int| #![trigger rest[i]] 0 <= i < rest.len() ==> rest[i] == text[n + 1 + i]);
    assert(level_char(level[0]) && level_char(level[n - 1]));
    if valid_address(encode_utf8(rest)) {
        assert(text[text.len() - 1] == rest[rest.len() - 1]);
        assert forall|i: int| #![trigger text[i]] 0 <= i < text.len() implies level_char(text[i])
            || text[i] == ':' by {
            if i > n {
                assert(rest[i - n - 1] == text[i]);
            }
        }
        assert forall|i: int| #![trigger text[i]] 0 <= i < text.len() - 1 implies !(text[i] == ':'
            && text[i + 1] == ':') by {
            if i == n {
                assert(rest[0] == text[i + 1]);
            } else if i > n {
                assert(rest[i - n - 1] == text[i]);
                assert(rest[i - n - 1 + 1] == text[i + 1]);
            }
        }
    }
    if valid_address(encode_utf8(text)) {
        assert(rest.len() > 0) by {
            if rest.len() == 0 {
                assert(text[text.len() - 1] == ':');
            }
        }
        assert(rest[0] == text[n + 1]);
        assert(!(text[n] == ':' && text[n + 1] == ':'));
        assert(rest[rest.len() - 1] == text[text.len() - 1]);
        assert forall|i: int| #![trigger rest[i]] 0 <= i < rest.len() - 1 implies !(rest[i] == ':'
            && rest[i + 1] == ':') by {
            assert(text[n + 1 + i] == rest[i]);
            assert(text[n + 1 + i + 1] == rest[i + 1]);
        }
    }
}

} // verus!
