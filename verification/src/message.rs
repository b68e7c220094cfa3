//! STUN messages and their headers, based on RFC 8489 and RFC 5780: what
//! they hold, how they are read from a datagram and written to one.

use rand::{thread_rng, Rng};
use std::collections::HashMap;
use vstd::prelude::*;
use vstd::slice::slice_subrange;
use vstd::std_specs::iter::IteratorSpec;

use crate::error::{ErrorView, STUNClientError};
use crate::format::{
    attributes_length, decode_attribute_section, decode_attributes, decode_header, decode_message,
    encode_attributes, encode_header, is_encoding_in_order, is_encoding_of, is_order_of,
    lemma_length_bounds_values, lemma_length_of_nothing, lemma_length_of_one_more,
    lemma_length_of_some, max_value_len, raw_value, values_fit, HeaderView, MessageView,
};
use crate::kinds::{
    class_of_message_type, message_type, method_of_message_type, Attribute, Class, Method,
    CLASS_MASK, HEADER_BYTE_SIZE, MAGIC_COOKIE, METHOD_MASK, TRANSACTION_ID_BYTE_SIZE,
};
use crate::wire::{
    copy_range, padded_len, read_be16, write_be16, write_be32, write_bytes, write_zeros,
};

verus! {

/// Struct representing STUN header
#[derive(Debug, Eq, PartialEq)]
pub struct Header {
    method: Method,
    class: Class,
    length: u16,
    transaction_id: Vec<u8>,
}

impl View for Header {
    type V = HeaderView;

    closed spec fn view(&self) -> HeaderView {
        HeaderView {
            method: self.method,
            class: self.class,
            length: self.length,
            transaction_id: self.transaction_id@,
        }
    }
}

impl Header {
    /// Create a STUN header.
    pub fn new(method: Method, class: Class, length: u16, transaction_id: Vec<u8>) -> (header:
        Header)
        ensures
            header@ == (HeaderView { method, class, length, transaction_id: transaction_id@ }),
    {
        Header { class: class, method: method, length: length, transaction_id: transaction_id }
    }

    /// Create a STUN header from raw bytes: from the first 20 of them, the
    /// rest is not looked at. Fewer than 20 bytes are a `ParseError`.
    pub fn from_raw(buf: &[u8]) -> (res: Result<Header, STUNClientError>)
        ensures
            match decode_header(buf@) {
                Some(header) => res matches Ok(h) && h@ == header,
                None => res matches Err(e) && e@ == ErrorView::Parse,
            },
    {
        if buf.len() < HEADER_BYTE_SIZE {
            return Err(STUNClientError::ParseError());
        }
        let message_type = read_be16(buf, 0);
        let class = Header::decode_class(message_type);
        let method = Header::decode_method(message_type);
        let length = read_be16(buf, 2);

        Ok(
            Header {
                class: class,
                method: method,
                length: length,
                // 4..8 is Magic Cookie
                transaction_id: copy_range(buf, 8, HEADER_BYTE_SIZE),
            },
        )
    }

    /// Converts a Header to a STUN protocol header raw bytes.
    pub fn to_raw(&self) -> (bytes: Vec<u8>)
        ensures
            bytes@ == encode_header(self@),
    {
        let message_type = self.message_type();
        let mut bytes = Vec::new();
        write_be16(&mut bytes, message_type);
        write_be16(&mut bytes, self.length);
        write_be32(&mut bytes, MAGIC_COOKIE);
        write_bytes(&mut bytes, self.transaction_id.as_slice());
        bytes
    }

    /// The class and the method of the header, packed into a message type.
    pub fn message_type(&self) -> (bits: u16)
        ensures
            bits == message_type(self@.class, self@.method),
    {
        self.class.to_u16() | self.method.to_u16()
    }

    /// The method that a message type holds.
    pub fn decode_method(message_type: u16) -> (method: Method)
        ensures
            method == method_of_message_type(message_type),
    {
        // RFC8489: M11 through M0 represent a 12-bit encoding of the method
        Method::from_u16(message_type & METHOD_MASK)
    }

    /// The class that a message type holds.
    pub fn decode_class(message_type: u16) -> (class: Class)
        ensures
            class == class_of_message_type(message_type),
    {
        // RFC8489: C1 and C0 represent a 2-bit encoding of the class
        Class::from_u16(message_type & CLASS_MASK)
    }
}

/// What a map of attributes holds: the bytes of each value under the code
/// of its kind.
pub open spec fn attributes_view(attributes: Map<u16, Vec<u8>>) -> Map<u16, Seq<u8>> {
    attributes.map_values(|value: Vec<u8>| value@)
}

/// Struct representing STUN message
#[derive(Debug, Eq, PartialEq)]
pub struct Message {
    header: Header,
    attributes: Option<HashMap<u16, Vec<u8>>>,
}

impl View for Message {
    type V = MessageView;

    closed spec fn view(&self) -> MessageView {
        MessageView {
            header: self.header@,
            attributes: match self.attributes {
                None => None,
                Some(attributes) => Some(attributes_view(attributes@)),
            },
        }
    }
}

impl Message {
    /// Every attribute value is short enough for its length field.
    #[verifier::type_invariant]
    closed spec fn every_value_fits(self) -> bool {
        match self.attributes {
            None => true,
            Some(attributes) => values_fit(attributes_view(attributes@)),
        }
    }

    /// Create a STUN message with a transaction id of twelve random bytes.
    /// The header declares the length of the attributes, which has to fit
    /// into its 16 bits.
    pub fn new(method: Method, class: Class, attributes: Option<HashMap<u16, Vec<u8>>>) -> (message:
        Message)
        requires
            attributes matches Some(held) ==> attributes_length(attributes_view(held@))
                <= u16::MAX,
        ensures
            message@.header.transaction_id.len() == TRANSACTION_ID_BYTE_SIZE,
            message@ == Message::assembled(
                method,
                class,
                attributes,
                message@.header.transaction_id,
            ),
    {
        let transaction_id = random_transaction_id();
        Message::with_transaction_id(method, class, attributes, transaction_id)
    }

    /// What a message made of these parts holds.
    pub open spec fn assembled(
        method: Method,
        class: Class,
        attributes: Option<HashMap<u16, Vec<u8>>>,
        transaction_id: Seq<u8>,
    ) -> MessageView {
        MessageView {
            header: HeaderView {
                method,
                class,
                length: match attributes {
                    None => 0,
                    Some(held) => attributes_length(attributes_view(held@)) as u16,
                },
                transaction_id,
            },
            attributes: match attributes {
                None => None,
                Some(held) => Some(attributes_view(held@)),
            },
        }
    }

    /// Create a STUN message with the given transaction id. The header
    /// declares the length of the attributes, which has to fit into its 16
    /// bits.
    pub fn with_transaction_id(
        method: Method,
        class: Class,
        attributes: Option<HashMap<u16, Vec<u8>>>,
        transaction_id: Vec<u8>,
    ) -> (message: Message)
        requires
            attributes matches Some(held) ==> attributes_length(attributes_view(held@))
                <= u16::MAX,
        ensures
            message@ == Message::assembled(method, class, attributes, transaction_id@),
    {
        let length: u16 = match &attributes {
            None => 0,
            Some(held) => {
                proof {
                    lemma_length_bounds_values(attributes_view(held@));
                }
                // The length fits, as the caller has seen to.
                match encoded_length(held) {
                    Some(length) => length,
                    None => 0,
                }
            },
        };
        let header = Header::new(method, class, length, transaction_id);
        Message { header: header, attributes: attributes }
    }

    /// Create a STUN message from raw bytes: a header, and attributes if
    /// any byte follows it. A header or an attribute cut short is a
    /// `ParseError`.
    pub fn from_raw(buf: &[u8]) -> (res: Result<Message, STUNClientError>)
        ensures
            match decode_message(buf@) {
                Some(message) => res matches Ok(m) && m@ == message,
                None => res matches Err(e) && e@ == ErrorView::Parse,
            },
    {
        if buf.len() < HEADER_BYTE_SIZE {
            return Err(STUNClientError::ParseError());
        }
        let header = match Header::from_raw(buf) {
            Ok(header) => header,
            Err(e) => {
                return Err(e);
            },
        };
        if buf.len() == HEADER_BYTE_SIZE {
            return Ok(Message { header: header, attributes: None });
        }
        match Message::decode_attrs(slice_subrange(buf, HEADER_BYTE_SIZE, buf.len())) {
            Ok(attrs) => {
                Ok(Message { header: header, attributes: Some(attrs) })
            },
            Err(e) => Err(e),
        }
    }

    /// Converts a Message to a STUN protocol message raw bytes: the header,
    /// then the attributes, each once, in the order in which the map hands
    /// them out.
    pub fn to_raw(&self) -> (bytes: Vec<u8>)
        ensures
            is_encoding_of(bytes@, self@),
    {
        proof {
            use_type_invariant(self);
        }
        let mut bytes = self.header.to_raw();
        match &self.attributes {
            None => {},
            Some(attributes) => {
                let ghost held = attributes_view(attributes@);
                let ghost full: Seq<u16> = kinds_in(attributes.iter().remaining());
                let ghost order: Seq<u16> = Seq::empty();
                for (kind, value) in it: attributes.iter()
                    invariant
                        held == attributes_view(attributes@),
                        values_fit(held),
                        it.seq() == attributes.iter().remaining(),
                        it.seq().no_duplicates(),
                        full == kinds_in(it.seq()),
                        order == full.take(it.index() as int),
                        bytes@ == encode_header(self.header@) + encode_attributes(order, held),
                {
                    assert(held.contains_key(*kind));
                    write_be16(&mut bytes, *kind);
                    write_be16(&mut bytes, value.len() as u16);
                    write_bytes(&mut bytes, value.as_slice());
                    write_zeros(&mut bytes, padded_size(value.len()) - value.len());
                    proof {
                        let longer = order.push(*kind);
                        assert(longer.drop_last() =~= order);
                        order = longer;
                    }
                }
                proof {
                    assert(order =~= full);
                    lemma_iteration_order(attributes);
                    assert(is_encoding_in_order(bytes@, self@.header, self@.attributes->0, order));
                }
            },
        }
        bytes
    }

    /// Get the method from Message.
    pub fn get_method(&self) -> (method: Method)
        ensures
            method == self@.header.method,
    {
        self.header.method
    }

    /// Get the class from Message.
    pub fn get_class(&self) -> (class: Class)
        ensures
            class == self@.header.class,
    {
        self.header.class
    }

    /// Get the raw attribute bytes from Message.
    pub fn get_raw_attr_value(&self, attr: Attribute) -> (value: Option<Vec<u8>>)
        ensures
            match raw_value(self@, attr.spec_to_u16()) {
                Some(bytes) => value matches Some(v) && v@ == bytes,
                None => value is None,
            },
    {
        match &self.attributes {
            None => None,
            Some(attributes) => {
                let kind = attr.to_u16();
                match attributes.get(&kind) {
                    None => None,
                    Some(value) => Some(value.clone()),
                }
            },
        }
    }

    /// Get the transaction id from Message.
    pub fn get_transaction_id(&self) -> (transaction_id: Vec<u8>)
        ensures
            transaction_id@ == self@.header.transaction_id,
    {
        self.header.transaction_id.clone()
    }

    /// Reads the attributes that follow a header. No bytes at all, or an
    /// attribute cut short, are a `ParseError`.
    pub fn decode_attrs(attrs_buf: &[u8]) -> (res: Result<HashMap<u16, Vec<u8>>, STUNClientError>)
        ensures
            match decode_attribute_section(attrs_buf@) {
                Some(attributes) => res matches Ok(found) && attributes_view(found@) == attributes
                    && values_fit(attributes),
                None => res matches Err(e) && e@ == ErrorView::Parse,
            },
    {
        let mut attributes: HashMap<u16, Vec<u8>> = HashMap::new();
        let size = attrs_buf.len();
        if size == 0 {
            return Err(STUNClientError::ParseError());
        }
        assert(attributes_view(attributes@) =~= Map::empty());
        assert(attrs_buf@.skip(0) =~= attrs_buf@);
        let mut at: usize = 0;
        while at < size
            invariant
                size == attrs_buf@.len(),
                at <= size,
                values_fit(attributes_view(attributes@)),
                decode_attributes(attrs_buf@, Map::empty()) == decode_attributes(
                    attrs_buf@.skip(at as int),
                    attributes_view(attributes@),
                ),
            decreases size - at,
        {
            let ghost rest = attrs_buf@.skip(at as int);
            if size - at < 4 {
                return Err(STUNClientError::ParseError());
            }
            let kind = read_be16(attrs_buf, at);
            let length: usize = read_be16(attrs_buf, at + 2) as usize;
            let padded: usize = padded_size(length);
            if size - at - 4 < padded {
                return Err(STUNClientError::ParseError());
            }
            let value = copy_range(attrs_buf, at + 4, at + 4 + length);
            proof {
                assert(value@ =~= rest.subrange(4, 4 + length));
                assert(rest.skip(4 + padded) =~= attrs_buf@.skip(at + 4 + padded));
                assert(attributes_view(attributes@.insert(kind, value)) =~= attributes_view(
                    attributes@,
                ).insert(kind, value@));
            }
            attributes.insert(kind, value);
            at = at + 4 + padded;
        }
        Ok(attributes)
    }
}

/// The kinds of the attributes that a walk through a map hands out, in the
/// order of the walk.
spec fn kinds_in(walk: Seq<(&u16, &Vec<u8>)>) -> Seq<u16> {
    Seq::new(walk.len(), |i: int| *walk[i].0)
}

/// A walk through a map that hands out no attribute twice names each kind
/// of the map once.
proof fn lemma_iteration_order(attributes: &HashMap<u16, Vec<u8>>)
    requires
        attributes.iter().remaining().no_duplicates(),
    ensures
        is_order_of(kinds_in(attributes.iter().remaining()), attributes_view(attributes@)),
{
    let walk = attributes.iter().remaining();
    let kinds = kinds_in(walk);
    assert(attributes_view(attributes@).dom() =~= attributes@.dom());
    assert forall|i: int, j: int|
        0 <= i < kinds.len() && 0 <= j < kinds.len() && i != j implies kinds[i] != kinds[j] by {
        assert(attributes@.contains_key(*walk[i].0) && attributes@[*walk[i].0] == *walk[i].1);
        assert(attributes@.contains_key(*walk[j].0) && attributes@[*walk[j].0] == *walk[j].1);
        if kinds[i] == kinds[j] {
            assert(walk[i] == walk[j]);
        }
    }
    assert(kinds.to_set() =~= attributes@.dom()) by {
        assert forall|kind: u16| kinds.to_set().contains(kind) implies attributes@.dom().contains(
            kind,
        ) by {
            let i = choose|i: int| 0 <= i < kinds.len() && kinds[i] == kind;
            assert(attributes@.contains_key(*walk[i].0));
        }
        assert forall|kind: u16| attributes@.dom().contains(kind) implies kinds.to_set().contains(
            kind,
        ) by {
            assert(attributes@.contains_key(kind));
            assert(walk.contains((&kind, &attributes@[kind])));
            let i = choose|i: int| 0 <= i < walk.len() && walk[i] == (&kind, &attributes@[kind]);
            assert(kinds[i] == kind);
        }
    }
}

/// Twelve bytes from `rand::thread_rng`, by `Rng::gen`. Nothing is
/// claimed of the bytes but their number.
#[verifier::external_body]
fn random_transaction_id() -> (transaction_id: Vec<u8>)
    ensures
        transaction_id@.len() == TRANSACTION_ID_BYTE_SIZE,
{
    thread_rng().gen::<[u8; 12]>().to_vec()
}

/// The length that the header of a message with these attributes declares:
/// four bytes and the value for each, padding not counted. `None` where that
/// is more than the 16 bits of the length field hold.
pub fn encoded_length(attributes: &HashMap<u16, Vec<u8>>) -> (length: Option<u16>)
    ensures
        match length {
            Some(length) => length == attributes_length(attributes_view(attributes@)),
            None => attributes_length(attributes_view(attributes@)) > u16::MAX,
        },
{
    let ghost held = attributes_view(attributes@);
    let ghost full: Seq<u16> = kinds_in(attributes.iter().remaining());
    let ghost seen: Set<u16> = Set::empty();
    let mut total: u16 = 0;
    proof {
        assert(held.restrict(seen) =~= Map::empty());
        lemma_length_of_nothing(0x1_0000);
    }
    for (kind, value) in it: attributes.iter()
        invariant
            held == attributes_view(attributes@),
            it.seq() == attributes.iter().remaining(),
            it.seq().no_duplicates(),
            full == kinds_in(it.seq()),
            seen == full.take(it.index() as int).to_set(),
            total == attributes_length(held.restrict(seen)),
    {
        proof {
            lemma_iteration_order(attributes);
            assert(held.contains_key(*kind));
            lemma_length_of_one_more(held, seen, *kind, 0x1_0000);
            lemma_length_of_some(held, seen.insert(*kind), 0x1_0000);
            assert(full.take(it.index() + 1) =~= full.take(it.index() as int).push(*kind));
            full.take(it.index() as int).lemma_push_to_set_commute(*kind);
            seen = seen.insert(*kind);
        }
        let room: usize = (u16::MAX - total) as usize;
        if room < 4 || value.len() > room - 4 {
            return None;
        }
        total = total + 4 + value.len() as u16;
    }
    proof {
        lemma_iteration_order(attributes);
        assert(full.take(full.len() as int) =~= full);
        assert(held.restrict(seen) =~= held);
    }
    Some(total)
}

/// `len` rounded up to the next multiple of four.
fn padded_size(len: usize) -> (padded: usize)
    requires
        len <= max_value_len(),
    ensures
        padded == padded_len(len as nat),
{
    if len % 4 == 0 {
        len
    } else {
        len + 4 - len % 4
    }
}

} // verus!
