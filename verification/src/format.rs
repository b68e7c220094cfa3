//! The STUN wire format, stated over sequences of bytes.
//!
//! A message is a 20-byte header followed by attributes. Each attribute is a
//! 16-bit kind, a 16-bit length, that many value bytes, and padding up to the
//! next multiple of four bytes. All integers are big-endian.

use vstd::prelude::*;

use crate::kinds::{
    class_of_message_type, message_type, method_of_message_type, Class, Method, HEADER_BYTE_SIZE,
    MAGIC_COOKIE, TRANSACTION_ID_BYTE_SIZE,
};
use crate::wire::{be16, be16_bytes, be32_bytes, padded_len, zeros};

verus! {

/// What a header holds.
pub struct HeaderView {
    pub method: Method,
    pub class: Class,
    pub length: u16,
    pub transaction_id: Seq<u8>,
}

impl HeaderView {
    /// Whether the header is one that decoding can give: a class and a method
    /// that a message type can hold, and a transaction id of twelve bytes.
    pub open spec fn canonical(self) -> bool {
        &&& self.class.canonical()
        &&& self.method.canonical()
        &&& self.transaction_id.len() == TRANSACTION_ID_BYTE_SIZE
    }
}

/// What a message holds: its header, and the value of each attribute under
/// the code of its kind.
pub struct MessageView {
    pub header: HeaderView,
    pub attributes: Option<Map<u16, Seq<u8>>>,
}

/// The value that the message holds under the code `kind`, if any.
pub open spec fn raw_value(message: MessageView, kind: u16) -> Option<Seq<u8>> {
    match message.attributes {
        Some(attributes) if attributes.contains_key(kind) => Some(attributes[kind]),
        _ => None,
    }
}

/// The largest number of value bytes that an attribute can declare.
pub open spec fn max_value_len() -> nat {
    0xFFFF
}

/// Whether every attribute value is short enough for its length field.
pub open spec fn values_fit(attributes: Map<u16, Seq<u8>>) -> bool {
    forall|kind: u16| #[trigger]
        attributes.contains_key(kind) ==> attributes[kind].len() <= max_value_len()
}

impl MessageView {
    /// Whether the message is one that decoding can give: a canonical
    /// header, and either no attributes at all or at least one, each with a
    /// value that its length field can declare.
    pub open spec fn canonical(self) -> bool {
        &&& self.header.canonical()
        &&& match self.attributes {
            None => true,
            Some(attributes) => {
                &&& attributes.dom().finite()
                &&& attributes.dom().len() > 0
                &&& values_fit(attributes)
            },
        }
    }
}

/// The header on the wire: message type, length, magic cookie, transaction
/// id.
pub open spec fn encode_header(header: HeaderView) -> Seq<u8> {
    be16_bytes(message_type(header.class, header.method)) + be16_bytes(header.length)
        + be32_bytes(MAGIC_COOKIE) + header.transaction_id
}

/// The header that the first 20 bytes of `bytes` encode, if there are as
/// many. The magic cookie is not examined.
pub open spec fn decode_header(bytes: Seq<u8>) -> Option<HeaderView> {
    if bytes.len() < HEADER_BYTE_SIZE {
        None
    } else {
        let bits = be16(bytes[0], bytes[1]);
        Some(
            HeaderView {
                method: method_of_message_type(bits),
                class: class_of_message_type(bits),
                length: be16(bytes[2], bytes[3]),
                transaction_id: bytes.subrange(8, HEADER_BYTE_SIZE as int),
            },
        )
    }
}

/// One attribute on the wire: kind, length of the value, the value, and zero
/// bytes up to the next multiple of four.
pub open spec fn encode_attribute(kind: u16, value: Seq<u8>) -> Seq<u8> {
    be16_bytes(kind) + be16_bytes(value.len() as u16) + value + zeros(
        (padded_len(value.len()) - value.len()) as nat,
    )
}

/// The attributes of `attributes` on the wire, one after the other in the
/// order in which `order` names their kinds.
pub open spec fn encode_attributes(order: Seq<u16>, attributes: Map<u16, Seq<u8>>) -> Seq<u8>
    decreases order.len(),
{
    if order.len() == 0 {
        Seq::empty()
    } else {
        encode_attributes(order.drop_last(), attributes) + encode_attribute(
            order.last(),
            attributes[order.last()],
        )
    }
}

/// The attributes that `bytes` encode, added to `found`; a kind that occurs
/// again replaces the value found before. `None` where an attribute is cut
/// short: fewer than four bytes for kind and length, or fewer bytes than the
/// declared length and its padding ask for.
pub open spec fn decode_attributes(bytes: Seq<u8>, found: Map<u16, Seq<u8>>) -> Option<
    Map<u16, Seq<u8>>,
>
    decreases bytes.len(),
{
    if bytes.len() == 0 {
        Some(found)
    } else if bytes.len() < 4 {
        None
    } else {
        let kind = be16(bytes[0], bytes[1]);
        let len = be16(bytes[2], bytes[3]) as int;
        let end = 4 + padded_len(len as nat) as int;
        if bytes.len() < end {
            None
        } else {
            decode_attributes(bytes.skip(end), found.insert(kind, bytes.subrange(4, 4 + len)))
        }
    }
}

/// The attributes that a non-empty `bytes` encode; `None` for no bytes at
/// all, and where an attribute is cut short.
pub open spec fn decode_attribute_section(bytes: Seq<u8>) -> Option<Map<u16, Seq<u8>>> {
    if bytes.len() == 0 {
        None
    } else {
        decode_attributes(bytes, Map::empty())
    }
}

/// The message that `bytes` encode: a header, and attributes if any byte
/// follows the header. `None` where the header or an attribute is cut short.
pub open spec fn decode_message(bytes: Seq<u8>) -> Option<MessageView> {
    match decode_header(bytes) {
        None => None,
        Some(header) => if bytes.len() == HEADER_BYTE_SIZE {
            Some(MessageView { header, attributes: None })
        } else {
            match decode_attribute_section(bytes.skip(HEADER_BYTE_SIZE as int)) {
                None => None,
                Some(attributes) => Some(MessageView { header, attributes: Some(attributes) }),
            }
        },
    }
}

/// Whether `order` names each kind of `attributes` once.
pub open spec fn is_order_of(order: Seq<u16>, attributes: Map<u16, Seq<u8>>) -> bool {
    &&& order.no_duplicates()
    &&& order.to_set() == attributes.dom()
}

/// Whether `bytes` is the header followed by the attributes, each once, in
/// the order in which `order` names their kinds, and each with a value that
/// its length field can declare.
pub open spec fn is_encoding_in_order(
    bytes: Seq<u8>,
    header: HeaderView,
    attributes: Map<u16, Seq<u8>>,
    order: Seq<u16>,
) -> bool {
    &&& is_order_of(order, attributes)
    &&& values_fit(attributes)
    &&& bytes == encode_header(header) + encode_attributes(order, attributes)
}

/// Whether `bytes` is the message on the wire: its header, followed by its
/// attributes in some order.
pub open spec fn is_encoding_of(bytes: Seq<u8>, message: MessageView) -> bool {
    match message.attributes {
        None => bytes == encode_header(message.header),
        Some(attributes) => exists|order: Seq<u16>| #[trigger]
            is_encoding_in_order(bytes, message.header, attributes, order),
    }
}

/// The bytes that an attribute of kind `kind` takes in the length field of a
/// header: four for kind and length, and the value. Padding is not counted.
pub open spec fn attribute_size(attributes: Map<u16, Seq<u8>>, kind: u16) -> nat {
    if attributes.contains_key(kind) {
        4 + attributes[kind].len()
    } else {
        0
    }
}

/// The sizes of the attributes whose kind lies below `bound`, added up.
pub open spec fn attributes_length_below(attributes: Map<u16, Seq<u8>>, bound: nat) -> nat
    decreases bound,
{
    if bound == 0 {
        0
    } else {
        attributes_length_below(attributes, (bound - 1) as nat) + attribute_size(
            attributes,
            (bound - 1) as u16,
        )
    }
}

/// The length that the header of a message with these attributes declares:
/// the sizes of all of them, added up.
pub open spec fn attributes_length(attributes: Map<u16, Seq<u8>>) -> nat {
    attributes_length_below(attributes, 0x1_0000)
}

/// No attributes have no length.
pub proof fn lemma_length_of_nothing(bound: nat)
    ensures
        attributes_length_below(Map::empty(), bound) == 0,
    decreases bound,
{
    if bound > 0 {
        lemma_length_of_nothing((bound - 1) as nat);
    }
}

/// Taking one more kind into account adds the size of its attribute.
pub proof fn lemma_length_of_one_more(
    attributes: Map<u16, Seq<u8>>,
    kinds: Set<u16>,
    kind: u16,
    bound: nat,
)
    requires
        !kinds.contains(kind),
        bound <= 0x1_0000,
    ensures
        attributes_length_below(attributes.restrict(kinds.insert(kind)), bound)
            == attributes_length_below(attributes.restrict(kinds), bound) + if kind < bound {
            attribute_size(attributes, kind)
        } else {
            0
        },
    decreases bound,
{
    if bound > 0 {
        lemma_length_of_one_more(attributes, kinds, kind, (bound - 1) as nat);
    }
}

/// Some of the attributes are never longer than all of them.
pub proof fn lemma_length_of_some(attributes: Map<u16, Seq<u8>>, kinds: Set<u16>, bound: nat)
    requires
        bound <= 0x1_0000,
    ensures
        attributes_length_below(attributes.restrict(kinds), bound) <= attributes_length_below(
            attributes,
            bound,
        ),
    decreases bound,
{
    if bound > 0 {
        lemma_length_of_some(attributes, kinds, (bound - 1) as nat);
    }
}

/// No attribute is larger than the length of all of them.
pub proof fn lemma_length_bounds_each(attributes: Map<u16, Seq<u8>>, kind: u16, bound: nat)
    requires
        kind < bound <= 0x1_0000,
    ensures
        attribute_size(attributes, kind) <= attributes_length_below(attributes, bound),
    decreases bound,
{
    if kind < bound - 1 {
        lemma_length_bounds_each(attributes, kind, (bound - 1) as nat);
    }
}

/// Attributes whose length a header can declare have values that their own
/// length fields can declare.
pub proof fn lemma_length_bounds_values(attributes: Map<u16, Seq<u8>>)
    requires
        attributes_length(attributes) <= u16::MAX,
    ensures
        values_fit(attributes),
{
    assert forall|kind: u16| #[trigger] attributes.contains_key(kind) implies attributes[kind].len()
        <= max_value_len() by {
        lemma_length_bounds_each(attributes, kind, 0x1_0000);
    }
}

} // verus!
