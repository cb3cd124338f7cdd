//! Message protocol: headers, transfer modes, addresses and their layout in bytes.

pub mod address_laws;
pub mod laws;
pub mod layout_laws;
pub mod wire;

use bytes::{Bytes, BytesMut};
use vstd::prelude::*;
use vstd::string::StringExecFns;
use vstd::utf8::{decode_utf8, encode_utf8, valid_utf8};

use crate::text::utf8_text;
use wire::{
    as_slice, buffer_seq, bytes_clone, bytes_seq, get_array, get_bytes, get_u16_le, get_u32_le,
    get_u8, put_slice, put_u16_le, put_u32_le, put_u8, remaining, room, u16_le, u16_of, u32_le,
    u32_of,
};

verus! {

// ---------------------------------------------------------------------------------------
// Constants
// ---------------------------------------------------------------------------------------

/// The protocol version that this library speaks.
pub const PROTOCOL_VERSION: u16 = 1;

/// The longest message type, in bytes.
pub const MAX_MSG_TYPE_LEN: usize = 255;

/// The longest recipient address, in bytes.
pub const MAX_ADDRESS_LEN: usize = 1024;

/// The largest payload, in bytes (1 MB).
pub const MAX_PAYLOAD_LEN: u32 = 1_048_576;

/// The size of a session token, in bytes.
pub const SESSION_TOKEN_LEN: usize = 32;

/// The size of a message identifier, in bytes.
pub const MESSAGE_ID_LEN: usize = 16;

/// The size of a submessage identifier, in bytes.
pub const SUB_MESSAGE_ID_LEN: usize = 4;

/// The size of the fixed header, in bytes: 2 (version) + 2 (flags) + 32 (token) +
/// 16 (message) + 4 (submessage) + 1 (ttl) + 1 (type length) + 2 (address length) +
/// 4 (payload length).
pub const FIXED_HEADER_SIZE: usize = 64;

/// The bits of the flags field that hold the transfer mode.
pub const TRANSFER_MODE_MASK: u16 = 0x0001;

/// Where in the flags field the transfer mode begins.
pub const TRANSFER_MODE_SHIFT: u16 = 0;

// ---------------------------------------------------------------------------------------
// Errors
// ---------------------------------------------------------------------------------------

/// What can be wrong with a message.
#[derive(Debug, PartialEq, Eq)]
pub enum ProtocolError {
    /// There are fewer bytes than a fixed header has.
    IncompleteHeader,
    /// The header was written for another protocol version.
    UnsupportedVersion(u16),
    /// The flags name no known transfer mode.
    UnknownTransferMode(u16),
    /// The message type is too long.
    MsgTypeTooLong(u8),
    /// The address is too long.
    AddressTooLong(u16),
    /// The payload is too large.
    PayloadTooLarge(u32),
    /// The message ends within its type.
    IncompleteMsgType,
    /// The message ends within its address.
    IncompleteAddress,
    /// The message ends within its payload.
    IncompletePayload,
    /// The message type is not UTF-8.
    InvalidMsgTypeUtf8,
    /// The address is not UTF-8.
    InvalidAddressUtf8,
    /// The address is not well formed, for the reason given.
    InvalidAddressFormat(String),
    /// The address has an empty level.
    EmptyAddressLevel,
}

// ---------------------------------------------------------------------------------------
// Transfer mode
// ---------------------------------------------------------------------------------------

/// How a message is exchanged.
#[derive(Debug, Clone, Copy, PartialEq, Eq, Structural)]
pub enum TransferMode {
    /// Sent without waiting for a response.
    InOnly,
    /// Sent as a request that is answered by a response.
    InOut,
}

/// The transfer mode that the lowest bit of the flags gives.
pub open spec fn flags_mode(flags: u16) -> TransferMode {
    if flags % 2 == 0 {
        TransferMode::InOnly
    } else {
        TransferMode::InOut
    }
}

/// The flags that give a transfer mode, with all reserved bits clear.
pub open spec fn mode_flags(mode: TransferMode) -> u16 {
    match mode {
        TransferMode::InOnly => 0,
        TransferMode::InOut => 1,
    }
}

impl TransferMode {
    /// The transfer mode that the flags hold. Every value of the one bit that holds it is a
    /// known mode, so this never fails.
    pub fn from_flags(flags: u16) -> (r: Result<Self, ProtocolError>)
        ensures
            r == Ok::<TransferMode, ProtocolError>(flags_mode(flags)),
    {
        let mode_bits: u16 = flags & TRANSFER_MODE_MASK;
        assert(flags & 1 == flags % 2) by (bit_vector);
        match mode_bits {
            0 => Ok(TransferMode::InOnly),
            1 => Ok(TransferMode::InOut),
            _ => Err(ProtocolError::UnknownTransferMode(mode_bits)),
        }
    }

    /// The flags that hold this transfer mode.
    pub fn to_flags(self) -> (r: u16)
        ensures
            r == mode_flags(self),
    {
        let bits: u16 = match self {
            TransferMode::InOnly => 0,
            TransferMode::InOut => 1,
        };
        assert(bits << 0u16 == bits) by (bit_vector);
        bits << TRANSFER_MODE_SHIFT
    }
}

// ---------------------------------------------------------------------------------------
// Fixed header
// ---------------------------------------------------------------------------------------

/// The fixed part of a message, of 64 bytes; all numbers are little-endian.
#[derive(Debug, PartialEq, Eq)]
pub struct FixedHeader {
    /// The protocol version.
    pub version: u16,
    /// The flags, which hold the transfer mode.
    pub flags: u16,
    /// The session token.
    pub session_token: [u8; SESSION_TOKEN_LEN],
    /// The identifier of the message.
    pub message_id: [u8; MESSAGE_ID_LEN],
    /// The identifier of the submessage.
    pub sub_message_id: [u8; SUB_MESSAGE_ID_LEN],
    /// The routing counter (time to live).
    pub ttl: u8,
    /// The length of the message type.
    pub msg_type_len: u8,
    /// The length of the recipient address.
    pub address_len: u16,
    /// The length of the payload.
    pub payload_len: u32,
}

/// What a fixed header holds.
#[verifier::ext_equal]
pub struct HeaderView {
    pub version: u16,
    pub flags: u16,
    pub session_token: Seq<u8>,
    pub message_id: Seq<u8>,
    pub sub_message_id: Seq<u8>,
    pub ttl: u8,
    pub msg_type_len: u8,
    pub address_len: u16,
    pub payload_len: u32,
}

impl View for FixedHeader {
    type V = HeaderView;

    open spec fn view(&self) -> HeaderView {
        HeaderView {
            version: self.version,
            flags: self.flags,
            session_token: self.session_token@,
            message_id: self.message_id@,
            sub_message_id: self.sub_message_id@,
            ttl: self.ttl,
            msg_type_len: self.msg_type_len,
            address_len: self.address_len,
            payload_len: self.payload_len,
        }
    }
}

impl HeaderView {
    /// The lengths are within their limits.
    pub open spec fn within_limits(self) -> bool {
        self.address_len <= MAX_ADDRESS_LEN && self.payload_len <= MAX_PAYLOAD_LEN
    }

    /// The identifiers have their sizes.
    pub open spec fn sized(self) -> bool {
        &&& self.session_token.len() == SESSION_TOKEN_LEN
        &&& self.message_id.len() == MESSAGE_ID_LEN
        &&& self.sub_message_id.len() == SUB_MESSAGE_ID_LEN
    }

    /// The bytes of the header.
    pub open spec fn encoded(self) -> Seq<u8> {
        u16_le(self.version) + u16_le(self.flags) + self.session_token + self.message_id
            + self.sub_message_id + seq![self.ttl] + seq![self.msg_type_len] + u16_le(
            self.address_len,
        ) + u32_le(self.payload_len)
    }

    /// The size of the whole message.
    pub open spec fn total_size(self) -> int {
        FIXED_HEADER_SIZE + self.msg_type_len + self.address_len + self.payload_len
    }
}

/// The header that the first 64 bytes of `s` hold.
pub open spec fn header_at(s: Seq<u8>) -> HeaderView {
    HeaderView {
        version: u16_of(s),
        flags: u16_of(s.skip(2)),
        session_token: s.subrange(4, 36),
        message_id: s.subrange(36, 52),
        sub_message_id: s.subrange(52, 56),
        ttl: s[56],
        msg_type_len: s[57],
        address_len: u16_of(s.skip(58)),
        payload_len: u32_of(s.skip(60)),
    }
}

/// What is wrong with the lengths of a header, if anything.
pub open spec fn limit_error(address_len: u16, payload_len: u32) -> Option<ProtocolError> {
    if address_len > MAX_ADDRESS_LEN {
        Some(ProtocolError::AddressTooLong(address_len))
    } else if payload_len > MAX_PAYLOAD_LEN {
        Some(ProtocolError::PayloadTooLarge(payload_len))
    } else {
        None
    }
}

/// What is wrong with the header at the start of `s`, if anything.
pub open spec fn header_error(s: Seq<u8>) -> Option<ProtocolError> {
    if s.len() < FIXED_HEADER_SIZE {
        Some(ProtocolError::IncompleteHeader)
    } else if u16_of(s) != PROTOCOL_VERSION {
        Some(ProtocolError::UnsupportedVersion(u16_of(s)))
    } else {
        limit_error(header_at(s).address_len, header_at(s).payload_len)
    }
}

/// How many bytes reading a header from `s` takes.
pub open spec fn header_taken(s: Seq<u8>) -> int {
    if s.len() < FIXED_HEADER_SIZE {
        0
    } else if u16_of(s) != PROTOCOL_VERSION {
        2
    } else {
        FIXED_HEADER_SIZE as int
    }
}

impl Clone for FixedHeader {
    fn clone(&self) -> (r: Self)
        ensures
            r == *self,
    {
        FixedHeader {
            version: self.version,
            flags: self.flags,
            session_token: self.session_token,
            message_id: self.message_id,
            sub_message_id: self.sub_message_id,
            ttl: self.ttl,
            msg_type_len: self.msg_type_len,
            address_len: self.address_len,
            payload_len: self.payload_len,
        }
    }
}

impl FixedHeader {
    /// A header of the current version, unless a length is over its limit.
    pub fn new(
        mode: TransferMode,
        session_token: [u8; SESSION_TOKEN_LEN],
        message_id: [u8; MESSAGE_ID_LEN],
        sub_message_id: [u8; SUB_MESSAGE_ID_LEN],
        ttl: u8,
        msg_type_len: u8,
        address_len: u16,
        payload_len: u32,
    ) -> (r: Result<Self, ProtocolError>)
        ensures
            match limit_error(address_len, payload_len) {
                Some(e) => r == Err::<FixedHeader, ProtocolError>(e),
                None => r == Ok::<FixedHeader, ProtocolError>(
                    FixedHeader {
                        version: PROTOCOL_VERSION,
                        flags: mode_flags(mode),
                        session_token,
                        message_id,
                        sub_message_id,
                        ttl,
                        msg_type_len,
                        address_len,
                        payload_len,
                    },
                ),
            },
    {
        if msg_type_len as usize > MAX_MSG_TYPE_LEN {
            return Err(ProtocolError::MsgTypeTooLong(msg_type_len));
        }
        if address_len as usize > MAX_ADDRESS_LEN {
            return Err(ProtocolError::AddressTooLong(address_len));
        }
        if payload_len > MAX_PAYLOAD_LEN {
            return Err(ProtocolError::PayloadTooLarge(payload_len));
        }
        let flags: u16 = mode.to_flags();
        Ok(
            FixedHeader {
                version: PROTOCOL_VERSION,
                flags,
                session_token,
                message_id,
                sub_message_id,
                ttl,
                msg_type_len,
                address_len,
                payload_len,
            },
        )
    }

    /// Reads a header from the front of `buf`.
    ///
    /// Nothing is taken if there are too few bytes, and only the version if it is another
    /// one; otherwise the whole header is.
    pub fn decode(buf: &mut Bytes) -> (r: Result<Self, ProtocolError>)
        ensures
            match header_error(bytes_seq(*old(buf))) {
                Some(e) => r == Err::<FixedHeader, ProtocolError>(e),
                None => r matches Ok(h) && h@ == header_at(bytes_seq(*old(buf))),
            },
            bytes_seq(*final(buf)) == bytes_seq(*old(buf)).skip(
                header_taken(bytes_seq(*old(buf))),
            ),
    {
        let ghost s = bytes_seq(*buf);
        if remaining(buf) < FIXED_HEADER_SIZE {
            assert(s =~= s.skip(0));
            return Err(ProtocolError::IncompleteHeader);
        }
        let version: u16 = get_u16_le(buf);
        if version != PROTOCOL_VERSION {
            return Err(ProtocolError::UnsupportedVersion(version));
        }
        let flags: u16 = get_u16_le(buf);
        assert(bytes_seq(*buf) =~= s.skip(4));
        match TransferMode::from_flags(flags) {
            Ok(_) => {},
            Err(e) => {
                return Err(e);
            },
        }
        let session_token: [u8; SESSION_TOKEN_LEN] = get_array(buf);
        assert(session_token@ =~= s.subrange(4, 36));
        assert(bytes_seq(*buf) =~= s.skip(36));
        let message_id: [u8; MESSAGE_ID_LEN] = get_array(buf);
        assert(message_id@ =~= s.subrange(36, 52));
        assert(bytes_seq(*buf) =~= s.skip(52));
        let sub_message_id: [u8; SUB_MESSAGE_ID_LEN] = get_array(buf);
        assert(sub_message_id@ =~= s.subrange(52, 56));
        assert(bytes_seq(*buf) =~= s.skip(56));
        let ttl: u8 = get_u8(buf);
        assert(bytes_seq(*buf) =~= s.skip(57));
        let msg_type_len: u8 = get_u8(buf);
        assert(bytes_seq(*buf) =~= s.skip(58));
        let address_len: u16 = get_u16_le(buf);
        assert(bytes_seq(*buf) =~= s.skip(60));
        let payload_len: u32 = get_u32_le(buf);
        assert(bytes_seq(*buf) =~= s.skip(64));
        if msg_type_len as usize > MAX_MSG_TYPE_LEN {
            return Err(ProtocolError::MsgTypeTooLong(msg_type_len));
        }
        if address_len as usize > MAX_ADDRESS_LEN {
            return Err(ProtocolError::AddressTooLong(address_len));
        }
        if payload_len > MAX_PAYLOAD_LEN {
            return Err(ProtocolError::PayloadTooLarge(payload_len));
        }
        let h = FixedHeader {
            version,
            flags,
            session_token,
            message_id,
            sub_message_id,
            ttl,
            msg_type_len,
            address_len,
            payload_len,
        };
        assert(h@ == header_at(s));
        Ok(h)
    }

    /// Appends the 64 bytes of this header to `buf`.
    pub fn encode(&self, buf: &mut BytesMut)
        requires
            buffer_seq(*old(buf)).len() + FIXED_HEADER_SIZE <= isize::MAX,
        ensures
            buffer_seq(*final(buf)) == buffer_seq(*old(buf)) + self@.encoded(),
    {
        let ghost s = buffer_seq(*buf);
        put_u16_le(buf, self.version);
        put_u16_le(buf, self.flags);
        put_slice(buf, self.session_token.as_slice());
        put_slice(buf, self.message_id.as_slice());
        put_slice(buf, self.sub_message_id.as_slice());
        put_u8(buf, self.ttl);
        put_u8(buf, self.msg_type_len);
        put_u16_le(buf, self.address_len);
        put_u32_le(buf, self.payload_len);
        assert(buffer_seq(*buf) =~= s + self@.encoded());
    }

    /// Appends the 64 bytes of this header to `buf` if it can take them, and returns whether
    /// it could.
    #[must_use]
    pub fn try_encode(&self, buf: &mut BytesMut) -> (r: bool)
        ensures
            r == (buffer_seq(*old(buf)).len() + FIXED_HEADER_SIZE <= isize::MAX),
            buffer_seq(*final(buf)) == (if r {
                buffer_seq(*old(buf)) + self@.encoded()
            } else {
                buffer_seq(*old(buf))
            }),
    {
        if room(buf) < FIXED_HEADER_SIZE {
            return false;
        }
        self.encode(buf);
        true
    }

    /// The transfer mode that the flags hold.
    pub fn transfer_mode(&self) -> (r: Result<TransferMode, ProtocolError>)
        ensures
            r == Ok::<TransferMode, ProtocolError>(flags_mode(self.flags)),
    {
        TransferMode::from_flags(self.flags)
    }

    /// The size of the message type and the address together.
    pub fn variable_header_size(&self) -> (r: usize)
        ensures
            r == self.msg_type_len + self.address_len,
    {
        self.msg_type_len as usize + self.address_len as usize
    }

    /// The size of the whole message: header, variable part and payload.
    pub fn total_message_size(&self) -> (r: usize)
        requires
            self@.total_size() <= usize::MAX,
        ensures
            r == self@.total_size(),
    {
        FIXED_HEADER_SIZE + self.variable_header_size() + self.payload_len as usize
    }
}

// ---------------------------------------------------------------------------------------
// Addresses
// ---------------------------------------------------------------------------------------

/// What can be wrong with the text of an address.
pub enum AddressFault {
    /// There is no text.
    Empty,
    /// A level is empty.
    EmptyLevel,
    /// A character is not allowed.
    BadCharacter,
}

/// Whether a byte may stand in an address: a letter, a digit, `-`, `_` or `:`.
pub open spec fn address_byte(b: u8) -> bool {
    ||| 97 <= b <= 122
    ||| 65 <= b <= 90
    ||| 48 <= b <= 57
    ||| b == 45
    ||| b == 95
    ||| b == 58
}

/// Whether a level of the address is empty: it starts or ends with `:`, or holds `::`.
pub open spec fn has_empty_level(s: Seq<u8>) -> bool {
    ||| s.len() > 0 && s[0] == 58
    ||| s.len() > 0 && s.last() == 58
    ||| exists|i: int| #![trigger s[i]] 0 <= i < s.len() - 1 && s[i] == 58 && s[i + 1] == 58
}

/// What is wrong with the address with bytes `s`, if anything.
pub open spec fn address_fault(s: Seq<u8>) -> Option<AddressFault> {
    if s.len() == 0 {
        Some(AddressFault::Empty)
    } else if has_empty_level(s) {
        Some(AddressFault::EmptyLevel)
    } else if exists|i: int| 0 <= i < s.len() && !address_byte(#[trigger] s[i]) {
        Some(AddressFault::BadCharacter)
    } else {
        None
    }
}

/// Whether `s` is the address of a recipient: not empty, without an empty level and of
/// allowed characters only.
pub open spec fn valid_address(s: Seq<u8>) -> bool {
    &&& s.len() > 0
    &&& !has_empty_level(s)
    &&& forall|i: int| 0 <= i < s.len() ==> address_byte(#[trigger] s[i])
}

/// Whether `e` reports the fault `f`.
pub open spec fn reports_address(e: ProtocolError, f: AddressFault) -> bool {
    match f {
        AddressFault::Empty => e matches ProtocolError::InvalidAddressFormat(text) && text@
            == "Address cannot be empty"@,
        AddressFault::EmptyLevel => e == ProtocolError::EmptyAddressLevel,
        AddressFault::BadCharacter => e matches ProtocolError::InvalidAddressFormat(text) && text@
            == "Invalid character in address"@,
    }
}

/// Whether two separators follow each other in `s`.
fn has_double_separator(s: &[u8]) -> (r: bool)
    ensures
        r == exists|i: int|
            #![trigger s@[i]]
            0 <= i < s@.len() - 1 && s@[i] == 58 && s@[i + 1] == 58,
{
    let mut i: usize = 1;
    while i < s.len()
        invariant
            1 <= i,
            forall|j: int|
                #![trigger s@[j]]
                0 <= j < i - 1 && j < s@.len() - 1 ==> !(s@[j] == 58 && s@[j + 1] == 58),
        decreases s@.len() - i,
    {
        if s[i - 1] == 58 && s[i] == 58 {
            assert(s@[i - 1] == 58 && s@[i - 1 + 1] == 58);
            return true;
        }
        i = i + 1;
    }
    false
}

/// Whether all of `s` may stand in an address.
fn all_address_bytes(s: &[u8]) -> (r: bool)
    ensures
        r == forall|i: int| 0 <= i < s@.len() ==> address_byte(#[trigger] s@[i]),
{
    let mut i: usize = 0;
    while i < s.len()
        invariant
            i <= s@.len(),
            forall|j: int| 0 <= j < i ==> address_byte(#[trigger] s@[j]),
        decreases s@.len() - i,
    {
        let b: u8 = s[i];
        let allowed = (97 <= b && b <= 122) || (65 <= b && b <= 90) || (48 <= b && b <= 57) || b
            == 45 || b == 95 || b == 58;
        if !allowed {
            assert(!address_byte(s@[i as int]));
            return false;
        }
        i = i + 1;
    }
    true
}

/// Checks the format of a recipient address: letters, digits, `-`, `_` and `:` only, and no
/// empty level, so that it neither starts nor ends with `:`.
pub fn validate_address(address: &str) -> (r: Result<(), ProtocolError>)
    ensures
        r is Ok <==> valid_address(encode_utf8(address@)),
        match address_fault(encode_utf8(address@)) {
            Some(f) => r matches Err(e) && reports_address(e, f),
            None => r is Ok,
        },
{
    let bytes = address.as_bytes();
    if bytes.len() == 0 {
        return Err(
            ProtocolError::InvalidAddressFormat(String::from_str("Address cannot be empty")),
        );
    }
    if bytes[0] == 58 || bytes[bytes.len() - 1] == 58 || has_double_separator(bytes) {
        return Err(ProtocolError::EmptyAddressLevel);
    }
    if !all_address_bytes(bytes) {
        return Err(
            ProtocolError::InvalidAddressFormat(String::from_str("Invalid character in address")),
        );
    }
    Ok(())
}

// ---------------------------------------------------------------------------------------
// Messages
// ---------------------------------------------------------------------------------------

/// A message: the fixed header, the message type, the recipient address and the payload,
/// which the broker does not look into.
#[derive(Debug, PartialEq, Eq)]
pub struct Message {
    /// The fixed header.
    pub header: FixedHeader,
    /// The message type.
    pub msg_type: String,
    /// The recipient address.
    pub address: String,
    /// The payload.
    pub payload: Bytes,
    /// The address to which a response goes, empty if none is expected. It is known within
    /// the process only and has no place in the encoded message.
    pub reply_to: String,
}

/// What a message holds.
#[verifier::ext_equal]
pub struct MessageView {
    pub header: HeaderView,
    pub msg_type: Seq<char>,
    pub address: Seq<char>,
    pub payload: Seq<u8>,
    pub reply_to: Seq<char>,
}

impl View for Message {
    type V = MessageView;

    open spec fn view(&self) -> MessageView {
        MessageView {
            header: self.header@,
            msg_type: self.msg_type@,
            address: self.address@,
            payload: bytes_seq(self.payload),
            reply_to: self.reply_to@,
        }
    }
}

impl MessageView {
    /// A message that can be sent: of the current version, with a valid address, and with a
    /// header that gives the lengths of its parts, each within its limit.
    pub open spec fn well_formed(self) -> bool {
        &&& self.header.version == PROTOCOL_VERSION
        &&& self.header.sized()
        &&& self.header.within_limits()
        &&& self.header.msg_type_len == encode_utf8(self.msg_type).len()
        &&& self.header.address_len == encode_utf8(self.address).len()
        &&& self.header.payload_len == self.payload.len()
        &&& valid_address(encode_utf8(self.address))
    }

    /// The bytes of the message.
    pub open spec fn encoded(self) -> Seq<u8> {
        self.header.encoded() + encode_utf8(self.msg_type) + encode_utf8(self.address)
            + self.payload
    }
}

/// What can be wrong with an encoded message.
pub enum MessageFault {
    /// The header is at fault.
    Header(ProtocolError),
    /// The message ends within its type.
    IncompleteMsgType,
    /// The message type is not UTF-8.
    InvalidMsgTypeUtf8,
    /// The message ends within its address.
    IncompleteAddress,
    /// The address is not UTF-8.
    InvalidAddressUtf8,
    /// The address is not well formed.
    Address(AddressFault),
    /// The message ends within its payload.
    IncompletePayload,
}

/// Whether `e` reports the fault `f`.
pub open spec fn reports_message(e: ProtocolError, f: MessageFault) -> bool {
    match f {
        MessageFault::Header(h) => e == h,
        MessageFault::IncompleteMsgType => e == ProtocolError::IncompleteMsgType,
        MessageFault::InvalidMsgTypeUtf8 => e == ProtocolError::InvalidMsgTypeUtf8,
        MessageFault::IncompleteAddress => e == ProtocolError::IncompleteAddress,
        MessageFault::InvalidAddressUtf8 => e == ProtocolError::InvalidAddressUtf8,
        MessageFault::Address(a) => reports_address(e, a),
        MessageFault::IncompletePayload => e == ProtocolError::IncompletePayload,
    }
}

/// Where the message type ends in `s`, a message with a sound header.
pub open spec fn type_end(s: Seq<u8>) -> int {
    FIXED_HEADER_SIZE + header_at(s).msg_type_len
}

/// Where the address ends in `s`, a message with a sound header.
pub open spec fn address_end(s: Seq<u8>) -> int {
    type_end(s) + header_at(s).address_len
}

/// Where the payload ends in `s`, a message with a sound header.
pub open spec fn payload_end(s: Seq<u8>) -> int {
    address_end(s) + header_at(s).payload_len
}

/// The bytes of the message type in `s`.
pub open spec fn type_bytes(s: Seq<u8>) -> Seq<u8> {
    s.subrange(FIXED_HEADER_SIZE as int, type_end(s))
}

/// The bytes of the address in `s`.
pub open spec fn address_bytes(s: Seq<u8>) -> Seq<u8> {
    s.subrange(type_end(s), address_end(s))
}

/// What is wrong with the message at the start of `s`, if anything.
pub open spec fn message_fault(s: Seq<u8>) -> Option<MessageFault> {
    if header_error(s) is Some {
        Some(MessageFault::Header(header_error(s)->0))
    } else if s.len() < type_end(s) {
        Some(MessageFault::IncompleteMsgType)
    } else if !valid_utf8(type_bytes(s)) {
        Some(MessageFault::InvalidMsgTypeUtf8)
    } else if s.len() < address_end(s) {
        Some(MessageFault::IncompleteAddress)
    } else if !valid_utf8(address_bytes(s)) {
        Some(MessageFault::InvalidAddressUtf8)
    } else if address_fault(address_bytes(s)) is Some {
        Some(MessageFault::Address(address_fault(address_bytes(s))->0))
    } else if s.len() < payload_end(s) {
        Some(MessageFault::IncompletePayload)
    } else {
        None
    }
}

/// The message at the start of `s`, where nothing is wrong with it.
pub open spec fn message_at(s: Seq<u8>) -> MessageView {
    MessageView {
        header: header_at(s),
        msg_type: decode_utf8(type_bytes(s)),
        address: decode_utf8(address_bytes(s)),
        payload: s.subrange(address_end(s), payload_end(s)),
        reply_to: Seq::empty(),
    }
}

/// How many bytes reading a message from `s` takes: everything up to the part at fault.
pub open spec fn message_taken(s: Seq<u8>) -> int {
    match message_fault(s) {
        Some(MessageFault::Header(_)) => header_taken(s),
        Some(MessageFault::IncompleteMsgType) => FIXED_HEADER_SIZE as int,
        Some(MessageFault::InvalidMsgTypeUtf8) => type_end(s),
        Some(MessageFault::IncompleteAddress) => type_end(s),
        Some(MessageFault::InvalidAddressUtf8) => address_end(s),
        Some(MessageFault::Address(_)) => address_end(s),
        Some(MessageFault::IncompletePayload) => address_end(s),
        None => payload_end(s),
    }
}

/// What is wrong with the parts of a new message, if anything.
pub open spec fn new_message_error(
    e: ProtocolError,
    msg_type: Seq<char>,
    address: Seq<char>,
    payload: Seq<u8>,
) -> bool {
    let type_len = encode_utf8(msg_type).len();
    let address_len = encode_utf8(address).len();
    if address_fault(encode_utf8(address)) is Some {
        reports_address(e, address_fault(encode_utf8(address))->0)
    } else if type_len > MAX_MSG_TYPE_LEN {
        e == ProtocolError::MsgTypeTooLong(type_len as u8)
    } else if address_len > MAX_ADDRESS_LEN {
        e == ProtocolError::AddressTooLong(address_len as u16)
    } else {
        e == ProtocolError::PayloadTooLarge(payload.len() as u32)
    }
}

impl Clone for Message {
    fn clone(&self) -> (r: Self)
        ensures
            r@ == self@,
    {
        Message {
            header: self.header.clone(),
            msg_type: self.msg_type.clone(),
            address: self.address.clone(),
            payload: bytes_clone(&self.payload),
            reply_to: self.reply_to.clone(),
        }
    }
}

impl Message {
    /// A message of the given parts, unless the address is not valid or a part is too long.
    ///
    /// The lengths that the errors carry are cut to the width of their header fields.
    pub fn new(
        mode: TransferMode,
        session_token: [u8; SESSION_TOKEN_LEN],
        message_id: [u8; MESSAGE_ID_LEN],
        sub_message_id: [u8; SUB_MESSAGE_ID_LEN],
        ttl: u8,
        msg_type: String,
        address: String,
        payload: Bytes,
    ) -> (r: Result<Self, ProtocolError>)
        ensures
            r is Ok <==> {
                &&& valid_address(encode_utf8(address@))
                &&& encode_utf8(msg_type@).len() <= MAX_MSG_TYPE_LEN
                &&& encode_utf8(address@).len() <= MAX_ADDRESS_LEN
                &&& bytes_seq(payload).len() <= MAX_PAYLOAD_LEN
            },
            r matches Ok(m) ==> m@.well_formed() && m@ == (MessageView {
                header: HeaderView {
                    version: PROTOCOL_VERSION,
                    flags: mode_flags(mode),
                    session_token: session_token@,
                    message_id: message_id@,
                    sub_message_id: sub_message_id@,
                    ttl,
                    msg_type_len: encode_utf8(msg_type@).len() as u8,
                    address_len: encode_utf8(address@).len() as u16,
                    payload_len: bytes_seq(payload).len() as u32,
                },
                msg_type: msg_type@,
                address: address@,
                payload: bytes_seq(payload),
                reply_to: Seq::empty(),
            }),
            r matches Err(e) ==> new_message_error(e, msg_type@, address@, bytes_seq(payload)),
    {
        match validate_address(address.as_str()) {
            Ok(_) => {},
            Err(e) => {
                return Err(e);
            },
        }
        let type_len: usize = msg_type.as_str().as_bytes().len();
        if type_len > MAX_MSG_TYPE_LEN {
            return Err(ProtocolError::MsgTypeTooLong(#[verifier::truncate] (type_len as u8)));
        }
        let address_len: usize = address.as_str().as_bytes().len();
        if address_len > MAX_ADDRESS_LEN {
            return Err(ProtocolError::AddressTooLong(#[verifier::truncate] (address_len as u16)));
        }
        let payload_len: usize = remaining(&payload);
        if payload_len > MAX_PAYLOAD_LEN as usize {
            return Err(ProtocolError::PayloadTooLarge(#[verifier::truncate] (payload_len as u32)));
        }
        let header = FixedHeader::new(
            mode,
            session_token,
            message_id,
            sub_message_id,
            ttl,
            type_len as u8,
            address_len as u16,
            payload_len as u32,
        );
        proof {
            reveal_strlit("");
        }
        match header {
            Ok(header) => Ok(
                Message { header, msg_type, address, payload, reply_to: String::from_str("") },
            ),
            Err(e) => Err(e),
        }
    }

    /// Reads a message from the front of `buf`, taking everything up to its end, or up to
    /// the part at fault.
    pub fn decode(buf: &mut Bytes) -> (r: Result<Self, ProtocolError>)
        ensures
            match message_fault(bytes_seq(*old(buf))) {
                Some(f) => r matches Err(e) && reports_message(e, f),
                None => r matches Ok(m) && m@ == message_at(bytes_seq(*old(buf))),
            },
            bytes_seq(*final(buf)) == bytes_seq(*old(buf)).skip(
                message_taken(bytes_seq(*old(buf))),
            ),
    {
        let ghost s = bytes_seq(*buf);
        let header = match FixedHeader::decode(buf) {
            Ok(h) => h,
            Err(e) => {
                return Err(e);
            },
        };
        let type_len: usize = header.msg_type_len as usize;
        if remaining(buf) < type_len {
            return Err(ProtocolError::IncompleteMsgType);
        }
        let type_part = get_bytes(buf, type_len);
        assert(bytes_seq(type_part) =~= type_bytes(s));
        assert(bytes_seq(*buf) =~= s.skip(type_end(s)));
        let msg_type = match utf8_text(as_slice(&type_part)) {
            Some(text) => text,
            None => {
                return Err(ProtocolError::InvalidMsgTypeUtf8);
            },
        };
        let address_len: usize = header.address_len as usize;
        if remaining(buf) < address_len {
            return Err(ProtocolError::IncompleteAddress);
        }
        let address_part = get_bytes(buf, address_len);
        assert(bytes_seq(address_part) =~= address_bytes(s));
        assert(bytes_seq(*buf) =~= s.skip(address_end(s)));
        let address = match utf8_text(as_slice(&address_part)) {
            Some(text) => text,
            None => {
                return Err(ProtocolError::InvalidAddressUtf8);
            },
        };
        proof {
            vstd::utf8::decode_utf8_encode_utf8(address_bytes(s));
        }
        match validate_address(address.as_str()) {
            Ok(_) => {},
            Err(e) => {
                return Err(e);
            },
        }
        let payload_len: usize = header.payload_len as usize;
        if remaining(buf) < payload_len {
            return Err(ProtocolError::IncompletePayload);
        }
        let payload = get_bytes(buf, payload_len);
        assert(bytes_seq(payload) =~= s.subrange(address_end(s), payload_end(s)));
        assert(bytes_seq(*buf) =~= s.skip(payload_end(s)));
        let reply_to = String::from_str("");
        proof {
            reveal_strlit("");
        }
        Ok(Message { header, msg_type, address, payload, reply_to })
    }

    /// Appends the bytes of this message to `buf`: header, type, address and payload.
    pub fn encode(&self, buf: &mut BytesMut)
        requires
            buffer_seq(*old(buf)).len() + FIXED_HEADER_SIZE + encode_utf8(self.msg_type@).len()
                + encode_utf8(self.address@).len() + bytes_seq(self.payload).len() <= isize::MAX,
        ensures
            buffer_seq(*final(buf)) == buffer_seq(*old(buf)) + self@.encoded(),
    {
        let ghost s = buffer_seq(*buf);
        proof {
            laws::lemma_encoded_len(self.header@);
        }
        self.header.encode(buf);
        put_slice(buf, self.msg_type.as_str().as_bytes());
        put_slice(buf, self.address.as_str().as_bytes());
        put_slice(buf, as_slice(&self.payload));
        assert(buffer_seq(*buf) =~= s + self@.encoded());
    }

    /// Appends the bytes of this message to `buf` if it can take them, and returns whether it
    /// could.
    #[must_use]
    pub fn try_encode(&self, buf: &mut BytesMut) -> (r: bool)
        ensures
            r == (buffer_seq(*old(buf)).len() + FIXED_HEADER_SIZE + encode_utf8(
                self.msg_type@,
            ).len() + encode_utf8(self.address@).len() + bytes_seq(self.payload).len()
                <= isize::MAX),
            buffer_seq(*final(buf)) == (if r {
                buffer_seq(*old(buf)) + self@.encoded()
            } else {
                buffer_seq(*old(buf))
            }),
    {
        let free: usize = room(buf);
        let type_len: usize = self.msg_type.as_str().as_bytes().len();
        let address_len: usize = self.address.as_str().as_bytes().len();
        if free < FIXED_HEADER_SIZE || free - FIXED_HEADER_SIZE < type_len || free
            - FIXED_HEADER_SIZE - type_len < address_len || free - FIXED_HEADER_SIZE - type_len
            - address_len < remaining(&self.payload) {
            return false;
        }
        self.encode(buf);
        true
    }

    /// The transfer mode that the header holds.
    pub fn transfer_mode(&self) -> (r: Result<TransferMode, ProtocolError>)
        ensures
            r == Ok::<TransferMode, ProtocolError>(flags_mode(self.header.flags)),
    {
        self.header.transfer_mode()
    }

    /// The size of the whole message, as its header gives it.
    pub fn size(&self) -> (r: usize)
        requires
            self.header@.total_size() <= usize::MAX,
        ensures
            r == self.header@.total_size(),
    {
        self.header.total_message_size()
    }
}

} // verus!
