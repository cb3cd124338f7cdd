//! What holds of the protocol as a whole.

use vstd::prelude::*;
use vstd::utf8::encode_utf8;

use super::wire::{lemma_u16_round_trip, lemma_u32_round_trip, u16_le, u32_le};
use super::{
    address_byte, address_bytes, address_end, address_fault, flags_mode, has_empty_level,
    header_at, header_error, header_taken, message_at, message_fault, message_taken, mode_flags,
    payload_end, type_bytes, valid_address, HeaderView, MessageView, TransferMode,
    FIXED_HEADER_SIZE, PROTOCOL_VERSION, TRANSFER_MODE_MASK,
};
use crate::broker_core::registry::pattern::{
    first_separator, has_star, lemma_first_separator_bounds, segments, STAR,
};

verus! {

/// A header has 64 bytes.
pub proof fn lemma_encoded_len(h: HeaderView)
    requires
        h.sized(),
    ensures
        h.encoded().len() == FIXED_HEADER_SIZE,
{
}

/// Flags made of a transfer mode give it back.
pub proof fn law_flags_round_trip(mode: TransferMode)
    ensures
        flags_mode(mode_flags(mode)) == mode,
{
}

/// Decoding an encoded header gives the header back and takes exactly its 64 bytes.
pub proof fn law_header_round_trip(h: HeaderView, rest: Seq<u8>)
    requires
        h.sized(),
        h.version == PROTOCOL_VERSION,
        h.within_limits(),
    ensures
        header_error(h.encoded() + rest) is None,
        header_at(h.encoded() + rest) == h,
        header_taken(h.encoded() + rest) == FIXED_HEADER_SIZE,
        h.encoded().len() == FIXED_HEADER_SIZE,
{
    let s = h.encoded() + rest;
    let r4 = u32_le(h.payload_len) + rest;
    let r3 = u16_le(h.address_len) + r4;
    let r2 = s.skip(4);
    let r1 = u16_le(h.flags) + r2;
    assert(s =~= u16_le(h.version) + r1);
    assert(s.skip(2) =~= r1);
    assert(s.skip(58) =~= r3);
    assert(s.skip(60) =~= r4);
    lemma_u16_round_trip(h.version, r1);
    lemma_u16_round_trip(h.flags, r2);
    lemma_u16_round_trip(h.address_len, r4);
    lemma_u32_round_trip(h.payload_len, rest);
    assert(s.subrange(4, 36) =~= h.session_token);
    assert(s.subrange(36, 52) =~= h.message_id);
    assert(s.subrange(52, 56) =~= h.sub_message_id);
    assert(s[56] == h.ttl);
    assert(s[57] == h.msg_type_len);
}

/// Decoding an encoded message gives the message back, whatever follows it, and leaves what
/// follows. The reply address alone is not carried over.
pub proof fn law_message_round_trip(m: MessageView, rest: Seq<u8>)
    requires
        m.well_formed(),
    ensures
        message_fault(m.encoded() + rest) is None,
        message_at(m.encoded() + rest) == (MessageView { reply_to: Seq::empty(), ..m }),
        (m.encoded() + rest).skip(message_taken(m.encoded() + rest)) == rest,
{
    let s = m.encoded() + rest;
    let t = encode_utf8(m.msg_type);
    let a = encode_utf8(m.address);
    let tail = t + a + m.payload + rest;
    assert(s =~= m.header.encoded() + tail);
    law_header_round_trip(m.header, tail);
    assert(type_bytes(s) =~= t);
    assert(address_bytes(s) =~= a);
    vstd::utf8::encode_utf8_valid_utf8(m.msg_type);
    vstd::utf8::encode_utf8_valid_utf8(m.address);
    vstd::utf8::encode_utf8_decode_utf8(m.msg_type);
    vstd::utf8::encode_utf8_decode_utf8(m.address);
    assert(s.subrange(address_end(s), payload_end(s)) =~= m.payload);
    assert(s.skip(payload_end(s)) =~= rest);
}

/// A message that is decoded without an error can be sent on: it is well formed.
pub proof fn law_decoded_message_is_well_formed(s: Seq<u8>)
    requires
        message_fault(s) is None,
    ensures
        message_at(s).well_formed(),
{
    vstd::utf8::decode_utf8_encode_utf8(type_bytes(s));
    vstd::utf8::decode_utf8_encode_utf8(address_bytes(s));
    lemma_valid_address(address_bytes(s));
}

/// Encoding a decoded message gives the bytes back that it was decoded from, so no two
/// encodings mean the same message.
pub proof fn law_encoding_undoes_decoding(s: Seq<u8>)
    requires
        message_fault(s) is None,
    ensures
        message_at(s).encoded() == s.take(message_taken(s)),
{
    vstd::utf8::decode_utf8_encode_utf8(type_bytes(s));
    vstd::utf8::decode_utf8_encode_utf8(address_bytes(s));
    let h = header_at(s);
    assert(u16_le(h.version) =~= s.subrange(0, 2));
    assert(u16_le(h.flags) =~= s.subrange(2, 4)) by {
        assert(s.skip(2)[0] == s[2] && s.skip(2)[1] == s[3]);
    }
    assert(u16_le(h.address_len) =~= s.subrange(58, 60)) by {
        assert(s.skip(58)[0] == s[58] && s.skip(58)[1] == s[59]);
    }
    assert(u32_le(h.payload_len) =~= s.subrange(60, 64)) by {
        let t = s.skip(60);
        assert(t[0] == s[60] && t[1] == s[61] && t[2] == s[62] && t[3] == s[63]);
    }
    assert(h.encoded() =~= s.take(64));
    assert(message_at(s).encoded() =~= s.take(payload_end(s)));
}

/// A text without a fault is a valid address.
pub proof fn lemma_valid_address(s: Seq<u8>)
    ensures
        address_fault(s) is None <==> valid_address(s),
{
}

/// The flags of a new message hold the transfer mode and nothing else.
pub proof fn law_reserved_flags_are_clear(mode: TransferMode)
    ensures
        mode_flags(mode) <= TRANSFER_MODE_MASK,
{
}

/// The size of a message is the number of its bytes.
pub proof fn law_size_is_encoded_length(m: MessageView)
    requires
        m.well_formed(),
    ensures
        m.encoded().len() == m.header.total_size(),
{
    lemma_encoded_len(m.header);
}

/// The levels of a valid address are its segments: none is empty and none is a wildcard, so
/// the address can be looked up and is never taken for a pattern.
pub proof fn law_valid_address_is_concrete(s: Seq<u8>)
    requires
        valid_address(s),
    ensures
        !has_star(s),
        forall|i: int| 0 <= i < segments(s).len() ==> (#[trigger] segments(s)[i]).len() > 0,
{
    if has_star(s) {
        let i = s.index_of(STAR);
        assert(address_byte(s[i]));
    }
    lemma_levels(s);
}

/// A text has an empty segment exactly if it is empty, starts or ends with a separator or
/// holds two in a row.
pub proof fn lemma_levels(s: Seq<u8>)
    ensures
        (s.len() > 0 && !has_empty_level(s)) <==> (forall|i: int|
            0 <= i < segments(s).len() ==> (#[trigger] segments(s)[i]).len() > 0),
    decreases s.len(),
{
    let i = first_separator(s) as int;
    lemma_first_separator_bounds(s);
    if i >= s.len() {
        assert(segments(s) =~= seq![s]);
        assert(segments(s)[0] == s);
    } else {
        let rest = s.skip(i + 1);
        lemma_levels(rest);
        let head = s.take(i);
        let all = segments(s);
        assert(all =~= seq![head] + segments(rest));
        assert(all[0] == head);
        if s.len() > 0 && !has_empty_level(s) {
            assert(rest.len() > 0);
            assert(rest.last() == s.last());
            assert(rest[0] == s[i + 1]);
            assert forall|k: int|
                #![trigger rest[k]]
                0 <= k < rest.len() - 1 implies !(rest[k] == 58 && rest[k + 1] == 58) by {
                assert(rest[k] == s[k + i + 1]);
                assert(rest[k + 1] == s[k + i + 1 + 1]);
            }
            assert forall|j: int| 0 <= j < all.len() implies (#[trigger] all[j]).len() > 0 by {
                if j > 0 {
                    assert(segments(rest)[j - 1] == all[j]);
                }
            }
        } else {
            if forall|j: int| 0 <= j < all.len() ==> (#[trigger] all[j]).len() > 0 {
                assert forall|j: int| 0 <= j < segments(rest).len() implies (#[trigger] segments(
                    rest,
                )[j]).len() > 0 by {
                    assert(segments(rest)[j] == all[j + 1]);
                }
                assert(rest.len() > 0 && !has_empty_level(rest));
                assert(rest.last() == s.last());
                assert(all[0].len() > 0);
                let k = choose|k: int|
                    #![trigger s[k]]
                    0 <= k < s.len() - 1 && s[k] == 58 && s[k + 1] == 58;
                assert(s[0] != 58);
                assert(0 <= k < s.len() - 1 && s[k] == 58 && s[k + 1] == 58);
                assert(k >= i);
                if k > i {
                    assert(rest[k - i - 1] == s[k]);
                    assert(rest[k - i - 1 + 1] == s[k + 1]);
                } else {
                    assert(rest[0] == s[k + 1]);
                }
                assert(false);
            }
        }
    }
}

} // verus!
