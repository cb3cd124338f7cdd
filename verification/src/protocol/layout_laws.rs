//! Where the parts of a message stand in its bytes, what is refused, and why.

use bytes::{Bytes, BytesMut};
use vstd::prelude::*;
use vstd::utf8::{decode_utf8, decode_utf8_encode_utf8, encode_utf8, valid_utf8};

use super::address_laws::{address_chars, empty_level, lemma_encoded_text};
use super::laws::{
    law_decoded_message_is_well_formed, law_encoding_undoes_decoding, law_header_round_trip,
    law_message_round_trip, lemma_encoded_len,
};
use super::wire::{buffer_seq, bytes_seq};
use super::{
    address_bytes, message_fault, message_taken, type_bytes, FixedHeader, HeaderView, Message,
    MessageFault, MessageView, ProtocolError, TransferMode,
};

verus! {

/// The number that two bytes of `s` from `i` on give, the low one first.
pub open spec fn number2(s: Seq<u8>, i: int) -> int {
    s[i] + 256 * s[i + 1]
}

/// The number that four bytes of `s` from `i` on give, the low one first.
pub open spec fn number4(s: Seq<u8>, i: int) -> int {
    s[i] + 256 * s[i + 1] + 65536 * s[i + 2] + 16777216 * s[i + 3]
}

/// Whether `h` stands at the front of `s`: the version in bytes 0 and 1, the flags in 2 and 3,
/// the token from 4, the identifier from 36, that of the submessage from 52, the time to live
/// in 56, and the lengths of type, address and payload in 57, 58 to 59 and 60 to 63.
pub open spec fn laid_out(h: HeaderView, s: Seq<u8>) -> bool {
    &&& s.len() >= 64
    &&& number2(s, 0) == h.version
    &&& number2(s, 2) == h.flags
    &&& s.subrange(4, 36) == h.session_token
    &&& s.subrange(36, 52) == h.message_id
    &&& s.subrange(52, 56) == h.sub_message_id
    &&& s[56] == h.ttl
    &&& s[57] == h.msg_type_len
    &&& number2(s, 58) == h.address_len
    &&& number4(s, 60) == h.payload_len
}

// ---------------------------------------------------------------------------------------
// Transfer modes
// ---------------------------------------------------------------------------------------

/// The lowest bit of the flags alone is the transfer mode, and every value of it is known.
pub proof fn law_lowest_flag_is_the_mode(flags: u16, r: Result<TransferMode, ProtocolError>)
    requires
        call_ensures(TransferMode::from_flags, (flags,), r),
    ensures
        r == Ok::<TransferMode, ProtocolError>(TransferMode::InOnly) <==> flags % 2 == 0,
        r == Ok::<TransferMode, ProtocolError>(TransferMode::InOut) <==> flags % 2 == 1,
{
}

/// The flags of a transfer mode are its bit and nothing else.
pub proof fn law_mode_is_one_flag(mode: TransferMode, r: u16)
    requires
        call_ensures(TransferMode::to_flags, (mode,), r),
    ensures
        mode == TransferMode::InOnly <==> r == 0,
        mode == TransferMode::InOut <==> r == 1,
{
}

// ---------------------------------------------------------------------------------------
// Headers
// ---------------------------------------------------------------------------------------

/// A header is made of any parts whose lengths are at most 1024 for the address and 1048576
/// for the payload. It holds them as they were given, the version 1 and the flag of the mode.
pub proof fn law_new_header(
    mode: TransferMode,
    session_token: [u8; 32],
    message_id: [u8; 16],
    sub_message_id: [u8; 4],
    ttl: u8,
    msg_type_len: u8,
    address_len: u16,
    payload_len: u32,
    r: Result<FixedHeader, ProtocolError>,
)
    requires
        call_ensures(
            FixedHeader::new,
            (
                mode,
                session_token,
                message_id,
                sub_message_id,
                ttl,
                msg_type_len,
                address_len,
                payload_len,
            ),
            r,
        ),
    ensures
        address_len > 1024 ==> r == Err::<FixedHeader, ProtocolError>(
            ProtocolError::AddressTooLong(address_len),
        ),
        address_len <= 1024 && payload_len > 1_048_576 ==> r == Err::<FixedHeader, ProtocolError>(
            ProtocolError::PayloadTooLarge(payload_len),
        ),
        address_len <= 1024 && payload_len <= 1_048_576 ==> {
            &&& r matches Ok(h)
            &&& h.version == 1
            &&& h.flags == (if mode == TransferMode::InOut {
                1
            } else {
                0int
            })
            &&& h.session_token == session_token
            &&& h.message_id == message_id
            &&& h.sub_message_id == sub_message_id
            &&& h.ttl == ttl
            &&& h.msg_type_len == msg_type_len
            &&& h.address_len == address_len
            &&& h.payload_len == payload_len
        },
{
}

/// The bytes of a header are 64, and each part has its place.
pub proof fn law_header_layout(h: HeaderView)
    requires
        h.sized(),
    ensures
        h.encoded().len() == 64,
        laid_out(h, h.encoded()),
{
    let s = h.encoded();
    assert(s.subrange(4, 36) =~= h.session_token);
    assert(s.subrange(36, 52) =~= h.message_id);
    assert(s.subrange(52, 56) =~= h.sub_message_id);
}

/// Encoding a header appends 64 bytes in which each part has its place.
pub proof fn law_encoded_header(h: &FixedHeader, before: BytesMut, after: BytesMut)
    requires
        exists|buf: &mut BytesMut|
            *buf == before && *final(buf) == after && #[trigger] call_ensures(
                FixedHeader::encode,
                (h, buf),
                (),
            ),
    ensures
        ({
            let n = buffer_seq(before).len() as int;
            let s = buffer_seq(after);
            &&& s.len() == n + 64
            &&& s.take(n) == buffer_seq(before)
            &&& laid_out(h@, s.skip(n))
        }),
{
    let n = buffer_seq(before).len() as int;
    law_header_layout(h@);
    assert(buffer_seq(after).take(n) =~= buffer_seq(before));
    assert(buffer_seq(after).skip(n) =~= h@.encoded());
}

/// Reading a header takes its parts from their places. It is refused if there are fewer than
/// 64 bytes, if the version is not 1, or if a length is over its limit, in this order.
pub proof fn law_decoded_header(before: Bytes, after: Bytes, r: Result<FixedHeader, ProtocolError>)
    requires
        exists|buf: &mut Bytes|
            *buf == before && *final(buf) == after && #[trigger] call_ensures(
                FixedHeader::decode,
                (buf,),
                r,
            ),
    ensures
        ({
            let s = bytes_seq(before);
            let rest = bytes_seq(after);
            if s.len() < 64 {
                r == Err::<FixedHeader, ProtocolError>(ProtocolError::IncompleteHeader) && rest == s
            } else if number2(s, 0) != 1 {
                r matches Err(ProtocolError::UnsupportedVersion(v)) && v == number2(s, 0)
            } else if number2(s, 58) > 1024 {
                r matches Err(ProtocolError::AddressTooLong(n)) && n == number2(s, 58)
            } else if number4(s, 60) > 1_048_576 {
                r matches Err(ProtocolError::PayloadTooLarge(n)) && n == number4(s, 60)
            } else {
                (r matches Ok(h) && laid_out(h@, s)) && rest == s.skip(64)
            }
        }),
{
    let s = bytes_seq(before);
    if s.len() < 64 {
        assert(s.skip(0) =~= s);
    } else {
        assert(s.skip(2)[0] == s[2] && s.skip(2)[1] == s[3]);
        assert(s.skip(58)[0] == s[58] && s.skip(58)[1] == s[59]);
        let t = s.skip(60);
        assert(t[0] == s[60] && t[1] == s[61] && t[2] == s[62] && t[3] == s[63]);
    }
}

// ---------------------------------------------------------------------------------------
// Messages
// ---------------------------------------------------------------------------------------

/// Whether a text can be the address of a message.
pub open spec fn address_text(text: Seq<char>) -> bool {
    text.len() > 0 && !empty_level(text) && address_chars(text)
}

/// A message can be sent exactly if it has the version 1, identifiers of 32, 16 and 4 bytes, a
/// valid address of at most 1024 bytes, a payload of at most 1048576 bytes, and the lengths of
/// its parts in its header.
pub proof fn law_well_formed_messages(m: MessageView)
    ensures
        m.well_formed() <==> {
            &&& m.header.version == 1
            &&& m.header.session_token.len() == 32
            &&& m.header.message_id.len() == 16
            &&& m.header.sub_message_id.len() == 4
            &&& m.header.msg_type_len == encode_utf8(m.msg_type).len()
            &&& m.header.address_len == encode_utf8(m.address).len()
            &&& m.header.payload_len == m.payload.len()
            &&& m.header.address_len <= 1024
            &&& m.header.payload_len <= 1_048_576
            &&& address_text(m.address)
        },
{
    lemma_encoded_text(m.address);
}

/// A message is made of a valid address of at most 1024 bytes, a type of at most 255 and a
/// payload of at most 1048576. It holds its parts as they were given, and no reply address.
/// A message that is refused is refused for the first of these that does not hold.
pub proof fn law_new_message(
    mode: TransferMode,
    session_token: [u8; 32],
    message_id: [u8; 16],
    sub_message_id: [u8; 4],
    ttl: u8,
    msg_type: String,
    address: String,
    payload: Bytes,
    r: Result<Message, ProtocolError>,
)
    requires
        call_ensures(
            Message::new,
            (
                mode,
                session_token,
                message_id,
                sub_message_id,
                ttl,
                msg_type,
                address,
                payload,
            ),
            r,
        ),
    ensures
        match r {
            Ok(m) => {
                &&& address_text(address@)
                &&& encode_utf8(msg_type@).len() <= 255
                &&& encode_utf8(address@).len() <= 1024
                &&& bytes_seq(payload).len() <= 1_048_576
                &&& m@.header.version == 1
                &&& m@.header.flags % 2 == (if mode == TransferMode::InOut {
                    1
                } else {
                    0int
                })
                &&& m@.header.session_token == session_token@
                &&& m@.header.message_id == message_id@
                &&& m@.header.sub_message_id == sub_message_id@
                &&& m@.header.ttl == ttl
                &&& m@.header.msg_type_len == encode_utf8(msg_type@).len()
                &&& m@.header.address_len == encode_utf8(address@).len()
                &&& m@.header.payload_len == bytes_seq(payload).len()
                &&& m@.msg_type == msg_type@
                &&& m@.address == address@
                &&& m@.payload == bytes_seq(payload)
                &&& m@.reply_to.len() == 0
            },
            Err(e) => if !address_text(address@) {
                e is InvalidAddressFormat || e is EmptyAddressLevel
            } else if encode_utf8(msg_type@).len() > 255 {
                e is MsgTypeTooLong
            } else if encode_utf8(address@).len() > 1024 {
                e is AddressTooLong
            } else {
                bytes_seq(payload).len() > 1_048_576 && e is PayloadTooLarge
            },
        },
{
    lemma_encoded_text(address@);
}

/// Encoding a message appends its header, its type, its address and its payload, and nothing
/// else.
pub proof fn law_encoded_message(m: &Message, before: BytesMut, after: BytesMut)
    requires
        exists|buf: &mut BytesMut|
            *buf == before && *final(buf) == after && #[trigger] call_ensures(
                Message::encode,
                (m, buf),
                (),
            ),
    ensures
        ({
            let n = buffer_seq(before).len() as int;
            let s = buffer_seq(after).skip(n);
            let t = 64 + encode_utf8(m@.msg_type).len();
            let a = t + encode_utf8(m@.address).len();
            &&& buffer_seq(after).take(n) == buffer_seq(before)
            &&& laid_out(m@.header, s)
            &&& s.subrange(64, t as int) == encode_utf8(m@.msg_type)
            &&& s.subrange(t as int, a as int) == encode_utf8(m@.address)
            &&& s.skip(a as int) == m@.payload
        }),
{
    let n = buffer_seq(before).len() as int;
    let s = buffer_seq(after).skip(n);
    let h = m@.header.encoded();
    let t = 64 + encode_utf8(m@.msg_type).len();
    let a = t + encode_utf8(m@.address).len();
    law_header_layout(m@.header);
    assert(s =~= m@.encoded());
    assert(buffer_seq(after).take(n) =~= buffer_seq(before));
    assert(s.subrange(4, 36) =~= h.subrange(4, 36));
    assert(s.subrange(36, 52) =~= h.subrange(36, 52));
    assert(s.subrange(52, 56) =~= h.subrange(52, 56));
    assert(forall|i: int| 0 <= i < 64 ==> #[trigger] s[i] == h[i]);
    assert(s.subrange(64, t as int) =~= encode_utf8(m@.msg_type));
    assert(s.subrange(t as int, a as int) =~= encode_utf8(m@.address));
    assert(s.skip(a as int) =~= m@.payload);
}

/// A message is read exactly from bytes that begin with an encoded message: it is the one that
/// they begin with, and what follows it is left.
pub proof fn law_decoding_reads_encoded_messages(
    before: Bytes,
    after: Bytes,
    r: Result<Message, ProtocolError>,
)
    requires
        exists|buf: &mut Bytes|
            *buf == before && *final(buf) == after && #[trigger] call_ensures(
                Message::decode,
                (buf,),
                r,
            ),
    ensures
        match r {
            Ok(m) => {
                &&& m@.well_formed()
                &&& m@.reply_to.len() == 0
                &&& bytes_seq(before) == m@.encoded() + bytes_seq(after)
            },
            Err(_) => forall|m: MessageView, rest: Seq<u8>|
                m.well_formed() ==> bytes_seq(before) != #[trigger] (m.encoded() + rest),
        },
{
    let s = bytes_seq(before);
    match r {
        Ok(_) => {
            law_decoded_message_is_well_formed(s);
            law_encoding_undoes_decoding(s);
            assert(s =~= s.take(message_taken(s)) + s.skip(message_taken(s)));
        },
        Err(_) => {
            assert forall|m: MessageView, rest: Seq<u8>| m.well_formed() implies s
                != #[trigger] (m.encoded() + rest) by {
                law_message_round_trip(m, rest);
            }
        },
    }
}

/// Why a message is refused, where its header is sound: it ends within its type, or the type
/// is not UTF-8, or it ends within its address, or the address is not UTF-8 or not valid, or
/// it ends within its payload, in this order.
pub proof fn law_refused_messages(before: Bytes, after: Bytes, r: Result<Message, ProtocolError>)
    requires
        exists|buf: &mut Bytes|
            *buf == before && *final(buf) == after && #[trigger] call_ensures(
                Message::decode,
                (buf,),
                r,
            ),
        bytes_seq(before).len() >= 64,
        number2(bytes_seq(before), 0) == 1,
        number2(bytes_seq(before), 58) <= 1024,
        number4(bytes_seq(before), 60) <= 1_048_576,
    ensures
        ({
            let s = bytes_seq(before);
            let t = 64 + s[57];
            let a = t + number2(s, 58);
            let p = a + number4(s, 60);
            if s.len() < t {
                r == Err::<Message, ProtocolError>(ProtocolError::IncompleteMsgType)
            } else if !valid_utf8(s.subrange(64, t)) {
                r == Err::<Message, ProtocolError>(ProtocolError::InvalidMsgTypeUtf8)
            } else if s.len() < a {
                r == Err::<Message, ProtocolError>(ProtocolError::IncompleteAddress)
            } else if !valid_utf8(s.subrange(t, a)) {
                r == Err::<Message, ProtocolError>(ProtocolError::InvalidAddressUtf8)
            } else if !address_text(decode_utf8(s.subrange(t, a))) {
                r matches Err(e) && (e is InvalidAddressFormat || e is EmptyAddressLevel)
            } else if s.len() < p {
                r == Err::<Message, ProtocolError>(ProtocolError::IncompletePayload)
            } else {
                r is Ok
            }
        }),
{
    let s = bytes_seq(before);
    let t = 64 + s[57];
    let a = t + number2(s, 58);
    assert(s.skip(58)[0] == s[58] && s.skip(58)[1] == s[59]);
    let q = s.skip(60);
    assert(q[0] == s[60] && q[1] == s[61] && q[2] == s[62] && q[3] == s[63]);
    if s.len() >= a && valid_utf8(s.subrange(t, a)) {
        decode_utf8_encode_utf8(s.subrange(t, a));
        lemma_encoded_text(decode_utf8(s.subrange(t, a)));
    }
}

/// A message that was cut off is not taken for a whole one: it is reported as incomplete, in
/// its header, type, address or payload, wherever it was cut.
pub proof fn law_messages_that_are_cut_off(m: MessageView, k: int)
    requires
        m.well_formed(),
        0 <= k < m.encoded().len(),
    ensures
        ({
            let t = 64 + encode_utf8(m.msg_type).len();
            let a = t + encode_utf8(m.address).len();
            message_fault(m.encoded().take(k)) == Some(
                if k < 64 {
                    MessageFault::Header(ProtocolError::IncompleteHeader)
                } else if k < t {
                    MessageFault::IncompleteMsgType
                } else if k < a {
                    MessageFault::IncompleteAddress
                } else {
                    MessageFault::IncompletePayload
                },
            )
        }),
{
    let s = m.encoded().take(k);
    if k >= 64 {
        let whole = encode_utf8(m.msg_type) + encode_utf8(m.address) + m.payload;
        let tail = whole.take(k - 64);
        lemma_encoded_len(m.header);
        assert(s =~= m.header.encoded() + tail);
        law_header_round_trip(m.header, tail);
        vstd::utf8::encode_utf8_valid_utf8(m.msg_type);
        vstd::utf8::encode_utf8_valid_utf8(m.address);
        let t = 64 + encode_utf8(m.msg_type).len();
        let a = t + encode_utf8(m.address).len();
        if k >= t {
            assert(type_bytes(s) =~= encode_utf8(m.msg_type));
        }
        if k >= a {
            assert(address_bytes(s) =~= encode_utf8(m.address));
        }
    }
}

/// The size of a message is 64 and the lengths of its parts.
pub proof fn law_sizes(h: &FixedHeader, variable: usize, total: usize)
    requires
        call_ensures(FixedHeader::variable_header_size, (h,), variable),
        call_ensures(FixedHeader::total_message_size, (h,), total),
    ensures
        variable == h.msg_type_len + h.address_len,
        total == 64 + variable + h.payload_len,
{
}

/// A message is encoded with a test for room exactly as without, where there is room for
/// `isize::MAX` bytes in all, and otherwise nothing is written.
pub proof fn law_encoding_where_there_is_room(
    m: &Message,
    before: BytesMut,
    after: BytesMut,
    r: bool,
)
    requires
        exists|buf: &mut BytesMut|
            *buf == before && *final(buf) == after && #[trigger] call_ensures(
                Message::try_encode,
                (m, buf),
                r,
            ),
    ensures
        buffer_seq(after) == (if r {
            buffer_seq(before) + m@.encoded()
        } else {
            buffer_seq(before)
        }),
        r <==> buffer_seq(before).len() + m@.encoded().len() <= isize::MAX,
{
    lemma_encoded_len(m@.header);
}

/// A copy of a message holds what the message holds.
pub proof fn law_copied_message(m: &Message, r: Message)
    requires
        call_ensures(<Message as Clone>::clone, (m,), r),
    ensures
        r@.header == m@.header,
        r@.msg_type == m@.msg_type,
        r@.address == m@.address,
        r@.payload == m@.payload,
        r@.reply_to == m@.reply_to,
{
}

/// The mode and the size of a message are those of its header.
pub proof fn law_mode_and_size(
    m: &Message,
    mode: Result<TransferMode, ProtocolError>,
    size: usize,
)
    requires
        call_ensures(Message::transfer_mode, (m,), mode),
        call_ensures(Message::size, (m,), size),
    ensures
        mode == Ok::<TransferMode, ProtocolError>(TransferMode::InOut) <==> m.header.flags % 2 == 1,
        mode is Ok,
        size == 64 + m.header.msg_type_len + m.header.address_len + m.header.payload_len,
{
}

} // verus!
