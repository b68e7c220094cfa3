//! The values of the attributes that the library knows by name: addresses,
//! plain and XOR-masked, the software description, the error code and the
//! change request.

use vstd::prelude::*;
use vstd::slice::slice_subrange;
use vstd::utf8::{decode_utf8, valid_utf8};

use crate::address::{IpAddress, SocketAddress};
use crate::format::{raw_value, MessageView};
use crate::kinds::{
    Attribute, ATTR_ERROR_CODE, ATTR_MAPPED_ADDRESS, ATTR_OTHER_ADDRESS, ATTR_RESPONSE_ORIGIN,
    ATTR_SOFTWARE, ATTR_XOR_MAPPED_ADDRESS, CHANGE_REQUEST_IP_FLAG, CHANGE_REQUEST_PORT_FLAG,
    FAMILY_IPV4, FAMILY_IPV6, MAGIC_COOKIE, TRANSACTION_ID_BYTE_SIZE,
};
use crate::message::Message;
use crate::wire::{
    be16, be32_bytes, copy_range, read_be16, write_be32, write_bytes, xor_bytes,
};

verus! {

/// The most significant 16 bits of the magic cookie, which mask the port of
/// an XOR-masked address.
pub const MAGIC_COOKIE_HIGH: u16 = 0x2112;

/// The reason that stands in for one that is not UTF-8.
pub open spec fn unreadable_reason() -> Seq<char> {
    "cannot parse error reason"@
}

/// The IP address of the given family that begins `bytes`: four bytes for
/// IPv4, sixteen for IPv6. `None` for another family and for fewer bytes
/// than the family asks for.
pub open spec fn ip_address_of(family: u8, bytes: Seq<u8>) -> Option<IpAddress> {
    if family == FAMILY_IPV4 && bytes.len() >= 4 {
        Some(IpAddress::V4([bytes[0], bytes[1], bytes[2], bytes[3]]))
    } else if family == FAMILY_IPV6 && bytes.len() >= 16 {
        Some(
            IpAddress::V6(
                [
                    bytes[0],
                    bytes[1],
                    bytes[2],
                    bytes[3],
                    bytes[4],
                    bytes[5],
                    bytes[6],
                    bytes[7],
                    bytes[8],
                    bytes[9],
                    bytes[10],
                    bytes[11],
                    bytes[12],
                    bytes[13],
                    bytes[14],
                    bytes[15],
                ],
            ),
        )
    } else {
        None
    }
}

/// The address that `value` holds in the layout of MAPPED-ADDRESS: a byte
/// that is passed over, the family, the port, and the IP address. `None`
/// for a value of fewer than four bytes, and where the bytes after the port
/// are no IP address of the family.
pub open spec fn decode_address(value: Seq<u8>) -> Option<SocketAddress> {
    if value.len() < 4 {
        None
    } else {
        match ip_address_of(value[1], value.skip(4)) {
            Some(ip) => Some(SocketAddress { ip, port: be16(value[2], value[3]) }),
            None => None,
        }
    }
}

/// The bytes that mask the address of an XOR-masked address: the magic
/// cookie, then the transaction id of the message.
pub open spec fn xor_key(transaction_id: Seq<u8>) -> Seq<u8> {
    be32_bytes(MAGIC_COOKIE) + transaction_id
}

/// `value` without the mask of XOR-MAPPED-ADDRESS: the two bytes of the
/// port XORed with the first two bytes of `key`, each byte of the address
/// XORed with the byte of `key` at its place. The first two bytes stay, and
/// so do bytes that the key does not reach.
pub open spec fn unmasked(value: Seq<u8>, key: Seq<u8>) -> Seq<u8> {
    Seq::new(
        value.len(),
        |i: int|
            if 2 <= i < 4 && i - 2 < key.len() {
                value[i] ^ key[i - 2]
            } else if 4 <= i && i - 4 < key.len() {
                value[i] ^ key[i - 4]
            } else {
                value[i]
            },
    )
}

/// The address that `value` holds in the layout of XOR-MAPPED-ADDRESS, in a
/// message with the given transaction id: the address that the unmasked
/// value holds. `None` also for an IPv6 address where the transaction id
/// has fewer than twelve bytes.
pub open spec fn decode_xor_address(value: Seq<u8>, transaction_id: Seq<u8>) -> Option<
    SocketAddress,
> {
    if value.len() >= 4 && value[1] == FAMILY_IPV6 && transaction_id.len()
        < TRANSACTION_ID_BYTE_SIZE {
        None
    } else {
        decode_address(unmasked(value, xor_key(transaction_id)))
    }
}

/// The port of an XOR-masked address is the 16 bits on the wire XORed with
/// the most significant 16 bits of the magic cookie. An IPv4 address is the
/// four bytes on the wire XORed with the magic cookie, an IPv6 address the
/// sixteen bytes on the wire XORed with the magic cookie and the transaction
/// id after it.
pub proof fn lemma_xor_address(value: Seq<u8>, transaction_id: Seq<u8>)
    requires
        decode_xor_address(value, transaction_id) is Some,
    ensures
        MAGIC_COOKIE_HIGH == MAGIC_COOKIE / 0x1_0000,
        decode_xor_address(value, transaction_id)->0.port == be16(value[2], value[3])
            ^ MAGIC_COOKIE_HIGH,
        value[1] == FAMILY_IPV4 ==> decode_xor_address(value, transaction_id)->0.ip.octets()
            == xor_bytes(value.subrange(4, 8), be32_bytes(MAGIC_COOKIE)),
        value[1] == FAMILY_IPV6 ==> decode_xor_address(value, transaction_id)->0.ip.octets()
            == xor_bytes(value.subrange(4, 20), xor_key(transaction_id)),
{
    let hi = value[2];
    let lo = value[3];
    let octets = decode_xor_address(value, transaction_id)->0.ip.octets();
    assert(((hi ^ 0x21) as u16 * 256 + (lo ^ 0x12) as u16) as u16 == ((hi as u16 * 256
        + lo as u16) as u16) ^ 0x2112u16) by (bit_vector);
    if value[1] == FAMILY_IPV4 {
        assert(octets =~= xor_bytes(value.subrange(4, 8), be32_bytes(MAGIC_COOKIE)));
    } else {
        assert(octets =~= xor_bytes(value.subrange(4, 20), xor_key(transaction_id)));
    }
}

/// The address under the code `kind`, in the layout of MAPPED-ADDRESS.
pub open spec fn address_of(message: MessageView, kind: u16) -> Option<SocketAddress> {
    match raw_value(message, kind) {
        Some(value) => decode_address(value),
        None => None,
    }
}

/// The address of the XOR-MAPPED-ADDRESS attribute.
pub open spec fn xor_mapped_address_of(message: MessageView) -> Option<SocketAddress> {
    match raw_value(message, ATTR_XOR_MAPPED_ADDRESS) {
        Some(value) => decode_xor_address(value, message.header.transaction_id),
        None => None,
    }
}

/// The text of the SOFTWARE attribute, where it is UTF-8.
pub open spec fn software_of(message: MessageView) -> Option<Seq<char>> {
    match raw_value(message, ATTR_SOFTWARE) {
        Some(value) if valid_utf8(value) => Some(decode_utf8(value)),
        _ => None,
    }
}

/// What an error code says.
pub enum ErrorCodeView {
    TryAlternate(Seq<char>),
    BadRequest(Seq<char>),
    Unauthorized(Seq<char>),
    UnknownAttribute(Seq<char>),
    StaleNonce(Seq<char>),
    ServerError(Seq<char>),
    Unknown(Seq<char>),
}

/// The error of the given code, with its reason.
pub open spec fn error_code_of(code: u16, reason: Seq<char>) -> ErrorCodeView {
    if code == 300 {
        ErrorCodeView::TryAlternate(reason)
    } else if code == 400 {
        ErrorCodeView::BadRequest(reason)
    } else if code == 401 {
        ErrorCodeView::Unauthorized(reason)
    } else if code == 420 {
        ErrorCodeView::UnknownAttribute(reason)
    } else if code == 438 {
        ErrorCodeView::StaleNonce(reason)
    } else if code == 500 {
        ErrorCodeView::ServerError(reason)
    } else {
        ErrorCodeView::Unknown(reason)
    }
}

/// The error that `value` holds in the layout of ERROR-CODE: two bytes that
/// are passed over, the hundreds of the code, the rest of the code, and the
/// reason in UTF-8. A reason that is not UTF-8 is replaced. `None` for a
/// value of fewer than four bytes.
pub open spec fn decode_error_code(value: Seq<u8>) -> Option<ErrorCodeView> {
    if value.len() < 4 {
        None
    } else {
        let code = (value[2] as int * 100 + value[3] as int) as u16;
        let reason = value.skip(4);
        Some(
            error_code_of(
                code,
                if valid_utf8(reason) {
                    decode_utf8(reason)
                } else {
                    unreadable_reason()
                },
            ),
        )
    }
}

/// The error of the ERROR-CODE attribute.
pub open spec fn error_code_in(message: MessageView) -> Option<ErrorCodeView> {
    match raw_value(message, ATTR_ERROR_CODE) {
        Some(value) => decode_error_code(value),
        None => None,
    }
}

/// The value of a CHANGE-REQUEST attribute: a 32-bit big-endian integer
/// with bit `0x04` for a change of IP address and bit `0x02` for a change of
/// port.
pub open spec fn change_request_value(change_ip: bool, change_port: bool) -> Seq<u8> {
    seq![
        0u8,
        0u8,
        0u8,
        ((if change_ip {
            4int
        } else {
            0int
        }) + (if change_port {
            2int
        } else {
            0int
        })) as u8,
    ]
}

/// An enum that defines the type of STUN error code.
#[derive(Clone, Debug, Eq, Hash, PartialEq)]
pub enum ErrorCode {
    TryAlternate(String),
    BadRequest(String),
    Unauthorized(String),
    UnknownAttribute(String),
    StaleNonce(String),
    ServerError(String),
    Unknown(String),
}

impl View for ErrorCode {
    type V = ErrorCodeView;

    open spec fn view(&self) -> ErrorCodeView {
        match self {
            ErrorCode::TryAlternate(reason) => ErrorCodeView::TryAlternate(reason@),
            ErrorCode::BadRequest(reason) => ErrorCodeView::BadRequest(reason@),
            ErrorCode::Unauthorized(reason) => ErrorCodeView::Unauthorized(reason@),
            ErrorCode::UnknownAttribute(reason) => ErrorCodeView::UnknownAttribute(reason@),
            ErrorCode::StaleNonce(reason) => ErrorCodeView::StaleNonce(reason@),
            ErrorCode::ServerError(reason) => ErrorCodeView::ServerError(reason@),
            ErrorCode::Unknown(reason) => ErrorCodeView::Unknown(reason@),
        }
    }
}

impl ErrorCode {
    /// The error of the given code, with its reason.
    pub fn from(code: u16, reason: String) -> (error: Self)
        ensures
            error@ == error_code_of(code, reason@),
    {
        match code {
            300 => Self::TryAlternate(reason),
            400 => Self::BadRequest(reason),
            401 => Self::Unauthorized(reason),
            420 => Self::UnknownAttribute(reason),
            438 => Self::StaleNonce(reason),
            500 => Self::ServerError(reason),
            _ => Self::Unknown(reason),
        }
    }
}

/// `String::from_utf8`: the text that the bytes encode in UTF-8, and `None`
/// where they are not UTF-8.
#[verifier::external_body]
fn string_from_utf8(bytes: Vec<u8>) -> (text: Option<String>)
    ensures
        text is Some <==> valid_utf8(bytes@),
        text matches Some(s) ==> s@ == decode_utf8(bytes@),
{
    String::from_utf8(bytes).ok()
}

/// The IP address of the given family that begins `b`.
pub fn bytes_to_ip_addr(family: u8, b: &[u8]) -> (ip: Option<IpAddress>)
    ensures
        ip == ip_address_of(family, b@),
{
    if family == FAMILY_IPV4 && b.len() >= 4 {
        Some(IpAddress::V4([b[0], b[1], b[2], b[3]]))
    } else if family == FAMILY_IPV6 && b.len() >= 16 {
        Some(
            IpAddress::V6(
                [
                    b[0],
                    b[1],
                    b[2],
                    b[3],
                    b[4],
                    b[5],
                    b[6],
                    b[7],
                    b[8],
                    b[9],
                    b[10],
                    b[11],
                    b[12],
                    b[13],
                    b[14],
                    b[15],
                ],
            ),
        )
    } else {
        None
    }
}

/// Reads an address in the layout of MAPPED-ADDRESS.
pub fn read_address(value: &[u8]) -> (address: Option<SocketAddress>)
    ensures
        address == decode_address(value@),
{
    if value.len() < 4 {
        return None;
    }
    let family = value[1];
    let port = read_be16(value, 2);
    match bytes_to_ip_addr(family, slice_subrange(value, 4, value.len())) {
        Some(ip) => Some(SocketAddress { ip, port }),
        None => None,
    }
}

/// Takes the mask of XOR-MAPPED-ADDRESS off `value`.
pub fn unmask(value: &[u8], key: &[u8]) -> (plain: Vec<u8>)
    ensures
        plain@ == unmasked(value@, key@),
{
    let mut plain: Vec<u8> = Vec::new();
    let mut at: usize = 0;
    while at < value.len()
        invariant
            at <= value@.len(),
            plain@.len() == at,
            forall|i: int| 0 <= i < at ==> plain@[i] == unmasked(value@, key@)[i],
        decreases value@.len() - at,
    {
        let byte = if 2 <= at && at < 4 && at - 2 < key.len() {
            value[at] ^ key[at - 2]
        } else if 4 <= at && at - 4 < key.len() {
            value[at] ^ key[at - 4]
        } else {
            value[at]
        };
        plain.push(byte);
        at = at + 1;
    }
    plain
}

/// Reads an address in the layout of XOR-MAPPED-ADDRESS, from a message
/// with the given transaction id.
pub fn read_xor_address(value: &[u8], transaction_id: &[u8]) -> (address: Option<SocketAddress>)
    ensures
        address == decode_xor_address(value@, transaction_id@),
{
    if value.len() >= 4 && value[1] == FAMILY_IPV6 && transaction_id.len()
        < TRANSACTION_ID_BYTE_SIZE {
        return None;
    }
    // RFC8489: X-Port is computed by XOR'ing the mapped port with the most
    // significant 16 bits of the magic cookie, X-Address by XOR'ing the mapped
    // IP address with the magic cookie and, for IPv6, the 96-bit transaction
    // ID after it.
    let mut key: Vec<u8> = Vec::new();
    write_be32(&mut key, MAGIC_COOKIE);
    write_bytes(&mut key, transaction_id);
    let plain = unmask(value, key.as_slice());
    read_address(plain.as_slice())
}

impl Attribute {
    /// Gets the value of the MAPPED-ADDRESS attribute from Message.
    pub fn get_mapped_address(message: &Message) -> (address: Option<SocketAddress>)
        ensures
            address == address_of(message@, ATTR_MAPPED_ADDRESS),
    {
        Self::decode_simple_address_attribute(message, Self::MappedAddress)
    }

    /// Gets the value of the XOR-MAPPED-ADDRESS attribute from Message.
    pub fn get_xor_mapped_address(message: &Message) -> (address: Option<SocketAddress>)
        ensures
            address == xor_mapped_address_of(message@),
    {
        match message.get_raw_attr_value(Self::XORMappedAddress) {
            None => None,
            Some(attr_value) => {
                let transaction_id = message.get_transaction_id();
                read_xor_address(attr_value.as_slice(), transaction_id.as_slice())
            },
        }
    }

    /// Gets the value of the SOFTWARE attribute from message.
    pub fn get_software(message: &Message) -> (software: Option<String>)
        ensures
            match software_of(message@) {
                Some(text) => software matches Some(s) && s@ == text,
                None => software is None,
            },
    {
        match message.get_raw_attr_value(Self::Software) {
            None => None,
            Some(attr_value) => string_from_utf8(attr_value),
        }
    }

    /// Gets the value of the ERROR-CODE attribute from Message.
    pub fn get_error_code(message: &Message) -> (error: Option<ErrorCode>)
        ensures
            match error_code_in(message@) {
                Some(code) => error matches Some(e) && e@ == code,
                None => error is None,
            },
    {
        match message.get_raw_attr_value(Self::ErrorCode) {
            None => None,
            Some(attr_value) => {
                if attr_value.len() < 4 {
                    return None;
                }
                let class: u16 = (attr_value[2] as u16) * 100;
                let number: u16 = attr_value[3] as u16;
                let code: u16 = class + number;
                let text = copy_range(attr_value.as_slice(), 4, attr_value.len());
                let reason = match string_from_utf8(text) {
                    Some(reason) => reason,
                    None => "cannot parse error reason".to_owned(),
                };
                Some(ErrorCode::from(code, reason))
            },
        }
    }

    /// Gets the value of the OTHER-ADDRESS attribute from Message.
    pub fn get_other_address(message: &Message) -> (address: Option<SocketAddress>)
        ensures
            address == address_of(message@, ATTR_OTHER_ADDRESS),
    {
        // RFC5780: it is simply a new name with the same semantics as CHANGED-ADDRESS.
        // RCF3489: Its syntax is identical to MAPPED-ADDRESS.
        Self::decode_simple_address_attribute(message, Self::OtherAddress)
    }

    /// Gets the value of the RESPONSE-ORIGIN attribute from Message.
    pub fn get_response_origin(message: &Message) -> (address: Option<SocketAddress>)
        ensures
            address == address_of(message@, ATTR_RESPONSE_ORIGIN),
    {
        Self::decode_simple_address_attribute(message, Self::ResponseOrigin)
    }

    /// Generates a value for the CHANGE-REQUEST attribute.
    pub fn generate_change_request_value(change_ip: bool, change_port: bool) -> (value: Vec<u8>)
        ensures
            value@ == change_request_value(change_ip, change_port),
    {
        let mut flags: u32 = 0;
        if change_ip {
            flags |= CHANGE_REQUEST_IP_FLAG;
        }
        if change_port {
            flags |= CHANGE_REQUEST_PORT_FLAG;
        }
        assert(0u32 | 4u32 == 4u32 && 0u32 | 2u32 == 2u32 && 4u32 | 2u32 == 6u32) by (bit_vector);
        let mut value: Vec<u8> = Vec::new();
        write_be32(&mut value, flags);
        value
    }

    /// Gets the address that the attribute `attr` of the message holds in
    /// the layout of MAPPED-ADDRESS.
    pub fn decode_simple_address_attribute(message: &Message, attr: Self) -> (address: Option<
        SocketAddress,
    >)
        ensures
            address == address_of(message@, attr.spec_to_u16()),
    {
        match message.get_raw_attr_value(attr) {
            None => None,
            Some(attr_value) => read_address(attr_value.as_slice()),
        }
    }
}

} // verus!
