//! What holds of the wire format as a whole: reading undoes writing, and a
//! datagram that is cut short is never read as a message.

use vstd::prelude::*;

use crate::format::{
    attributes_length, decode_attributes, decode_header, decode_message, encode_attribute,
    encode_attributes, encode_header, is_encoding_in_order, is_encoding_of, is_order_of,
    lemma_length_of_nothing, lemma_length_of_one_more, max_value_len, values_fit, HeaderView,
    MessageView,
};
use crate::kinds::{
    lemma_message_type_decodes_canonical, lemma_message_type_roundtrip, message_type,
    HEADER_BYTE_SIZE,
};
use crate::wire::{be16, be16_bytes, lemma_be16_roundtrip, padded_len};

verus! {

/// `found`, with each attribute that `order` names put in, in that order.
pub open spec fn with_attributes(
    found: Map<u16, Seq<u8>>,
    order: Seq<u16>,
    attributes: Map<u16, Seq<u8>>,
) -> Map<u16, Seq<u8>>
    decreases order.len(),
{
    if order.len() == 0 {
        found
    } else {
        with_attributes(found, order.drop_last(), attributes).insert(
            order.last(),
            attributes[order.last()],
        )
    }
}

/// A header is 20 bytes on the wire when its transaction id is twelve, and
/// reading gives back a canonical header, whatever follows it.
pub proof fn lemma_header_roundtrip(header: HeaderView, rest: Seq<u8>)
    requires
        header.canonical(),
    ensures
        encode_header(header).len() == HEADER_BYTE_SIZE,
        decode_header(encode_header(header) + rest) == Some(header),
{
    let bits = message_type(header.class, header.method);
    let bytes = encode_header(header) + rest;
    lemma_message_type_roundtrip(header.class, header.method);
    lemma_be16_roundtrip(bits, 0, 0);
    lemma_be16_roundtrip(header.length, 0, 0);
    assert(bytes[0] == be16_bytes(bits)[0]);
    assert(bytes[1] == be16_bytes(bits)[1]);
    assert(bytes[2] == be16_bytes(header.length)[0]);
    assert(bytes[3] == be16_bytes(header.length)[1]);
    assert(bytes.subrange(8, HEADER_BYTE_SIZE as int) =~= header.transaction_id);
}

/// Reading one written attribute puts it into what was found, and goes on
/// with what follows it.
pub proof fn lemma_attribute_roundtrip(
    kind: u16,
    value: Seq<u8>,
    rest: Seq<u8>,
    found: Map<u16, Seq<u8>>,
)
    requires
        value.len() <= max_value_len(),
    ensures
        decode_attributes(encode_attribute(kind, value) + rest, found) == decode_attributes(
            rest,
            found.insert(kind, value),
        ),
{
    let len = value.len() as u16;
    let bytes = encode_attribute(kind, value) + rest;
    lemma_be16_roundtrip(kind, 0, 0);
    lemma_be16_roundtrip(len, 0, 0);
    assert(bytes[0] == be16_bytes(kind)[0]);
    assert(bytes[1] == be16_bytes(kind)[1]);
    assert(bytes[2] == be16_bytes(len)[0]);
    assert(bytes[3] == be16_bytes(len)[1]);
    let end = 4 + padded_len(value.len()) as int;
    assert(encode_attribute(kind, value).len() == end);
    assert(bytes.skip(end) =~= rest);
    assert(bytes.subrange(4, 4 + len) =~= value);
}

/// Reading written attributes puts them into what was found, in the order
/// in which they were written, and goes on with what follows them.
pub proof fn lemma_attributes_roundtrip(
    order: Seq<u16>,
    attributes: Map<u16, Seq<u8>>,
    rest: Seq<u8>,
    found: Map<u16, Seq<u8>>,
)
    requires
        values_fit(attributes),
        forall|i: int| 0 <= i < order.len() ==> attributes.contains_key(#[trigger] order[i]),
    ensures
        decode_attributes(encode_attributes(order, attributes) + rest, found) == decode_attributes(
            rest,
            with_attributes(found, order, attributes),
        ),
    decreases order.len(),
{
    if order.len() == 0 {
        assert(encode_attributes(order, attributes) + rest =~= rest);
    } else {
        let kind = order.last();
        let last = encode_attribute(kind, attributes[kind]);
        assert(attributes.contains_key(order[order.len() - 1]));
        assert(encode_attributes(order, attributes) + rest =~= encode_attributes(
            order.drop_last(),
            attributes,
        ) + (last + rest));
        lemma_attributes_roundtrip(order.drop_last(), attributes, last + rest, found);
        lemma_attribute_roundtrip(
            kind,
            attributes[kind],
            rest,
            with_attributes(found, order.drop_last(), attributes),
        );
    }
}

/// Putting attributes in changes what was found at their kinds and nowhere
/// else.
pub proof fn lemma_with_attributes(
    found: Map<u16, Seq<u8>>,
    order: Seq<u16>,
    attributes: Map<u16, Seq<u8>>,
)
    ensures
        with_attributes(found, order, attributes).dom() == found.dom().union(order.to_set()),
        forall|kind: u16| #[trigger]
            order.contains(kind) ==> with_attributes(found, order, attributes)[kind]
                == attributes[kind],
        forall|kind: u16|
            !order.contains(kind) ==> #[trigger] with_attributes(found, order, attributes)[kind]
                == found[kind],
    decreases order.len(),
{
    let all = with_attributes(found, order, attributes);
    if order.len() == 0 {
        assert(all.dom() =~= found.dom().union(order.to_set()));
    } else {
        let before = order.drop_last();
        lemma_with_attributes(found, before, attributes);
        assert(order =~= before.push(order.last()));
        before.lemma_push_to_set_commute(order.last());
        assert(all.dom() =~= found.dom().union(order.to_set()));
        assert forall|kind: u16| #[trigger] order.contains(kind) implies all[kind]
            == attributes[kind] by {
            if kind != order.last() {
                let i = choose|i: int| 0 <= i < order.len() && order[i] == kind;
                assert(before[i] == kind);
                assert(before.contains(kind));
            }
        }
        assert forall|kind: u16| !order.contains(kind) implies #[trigger] all[kind]
            == found[kind] by {
            assert(order[order.len() - 1] == order.last());
            if before.contains(kind) {
                let i = choose|i: int| 0 <= i < before.len() && before[i] == kind;
                assert(order[i] == kind);
            }
        }
    }
}

/// Reading undoes writing. Whatever the order in which the attributes of a
/// canonical message were written, reading the bytes gives that message.
pub proof fn lemma_message_roundtrip(message: MessageView, bytes: Seq<u8>)
    requires
        message.canonical(),
        is_encoding_of(bytes, message),
    ensures
        decode_message(bytes) == Some(message),
{
    match message.attributes {
        None => {
            lemma_header_roundtrip(message.header, Seq::empty());
            assert(bytes =~= encode_header(message.header) + Seq::<u8>::empty());
        },
        Some(attributes) => {
            let order = choose|order: Seq<u16>| #[trigger]
                is_encoding_in_order(bytes, message.header, attributes, order);
            let section = encode_attributes(order, attributes);
            lemma_header_roundtrip(message.header, section);
            assert(bytes.skip(HEADER_BYTE_SIZE as int) =~= section);
            assert(section =~= section + Seq::<u8>::empty());
            assert forall|i: int| 0 <= i < order.len() implies attributes.contains_key(
                #[trigger] order[i],
            ) by {
                assert(order.to_set().contains(order[i]));
            }
            lemma_attributes_roundtrip(order, attributes, Seq::empty(), Map::empty());
            lemma_with_attributes(Map::empty(), order, attributes);
            let read = with_attributes(Map::empty(), order, attributes);
            assert(read =~= attributes) by {
                assert(read.dom() =~= attributes.dom());
                assert forall|kind: u16| read.contains_key(kind) implies read[kind]
                    == attributes[kind] by {
                    assert(order.to_set().contains(kind));
                    assert(order.contains(kind));
                }
            }
            // A message that holds attributes is longer than its header.
            assert(attributes.dom().len() > 0);
            assert(order.len() > 0) by {
                if order.len() == 0 {
                    assert(order.to_set() =~= Set::empty());
                }
            }
            assert(section.len() >= 4) by {
                lemma_encoded_len(order, attributes);
            }
        },
    }
}

/// Written attributes take at least four bytes each.
pub proof fn lemma_encoded_len(order: Seq<u16>, attributes: Map<u16, Seq<u8>>)
    ensures
        encode_attributes(order, attributes).len() >= 4 * order.len(),
    decreases order.len(),
{
    if order.len() > 0 {
        lemma_encoded_len(order.drop_last(), attributes);
    }
}

/// The bytes of padding among the written attributes that `order` names.
pub open spec fn padding_of(order: Seq<u16>, attributes: Map<u16, Seq<u8>>) -> nat
    decreases order.len(),
{
    if order.len() == 0 {
        0
    } else {
        let len = attributes[order.last()].len();
        padding_of(order.drop_last(), attributes) + (padded_len(len) - len) as nat
    }
}

/// The attributes that `order` names take on the wire what their sizes add
/// up to, and their padding.
proof fn lemma_encoded_size(order: Seq<u16>, attributes: Map<u16, Seq<u8>>)
    requires
        order.no_duplicates(),
        forall|i: int| 0 <= i < order.len() ==> attributes.contains_key(#[trigger] order[i]),
    ensures
        encode_attributes(order, attributes).len() == attributes_length(
            attributes.restrict(order.to_set()),
        ) + padding_of(order, attributes),
    decreases order.len(),
{
    if order.len() == 0 {
        assert(attributes.restrict(order.to_set()) =~= Map::empty());
        lemma_length_of_nothing(0x1_0000);
    } else {
        let before = order.drop_last();
        let kind = order.last();
        lemma_encoded_size(before, attributes);
        assert(order =~= before.push(kind));
        before.lemma_push_to_set_commute(kind);
        assert(!before.to_set().contains(kind)) by {
            if before.to_set().contains(kind) {
                let i = choose|i: int| 0 <= i < before.len() && before[i] == kind;
                assert(order[i] == order[order.len() - 1]);
            }
        }
        assert(attributes.contains_key(order[order.len() - 1]));
        lemma_length_of_one_more(attributes, before.to_set(), kind, 0x1_0000);
    }
}

/// The length that a header declares is the size of the attributes on the
/// wire without their padding, whatever the order in which they are
/// written.
pub proof fn lemma_length_is_size_without_padding(order: Seq<u16>, attributes: Map<u16, Seq<u8>>)
    requires
        is_order_of(order, attributes),
    ensures
        encode_attributes(order, attributes).len() == attributes_length(attributes) + padding_of(
            order,
            attributes,
        ),
{
    assert forall|i: int| 0 <= i < order.len() implies attributes.contains_key(
        #[trigger] order[i],
    ) by {
        assert(order.to_set().contains(order[i]));
    }
    lemma_encoded_size(order, attributes);
    assert(attributes.restrict(order.to_set()) =~= attributes);
}

/// What reading finds is what was found before and what the bytes add:
/// nothing found is lost, every value read can be declared by a length
/// field, and bytes that are read add at least one attribute.
pub proof fn lemma_decoded_attributes(bytes: Seq<u8>, found: Map<u16, Seq<u8>>)
    requires
        found.dom().finite(),
        values_fit(found),
        decode_attributes(bytes, found) is Some,
    ensures
        decode_attributes(bytes, found)->0.dom().finite(),
        values_fit(decode_attributes(bytes, found)->0),
        found.dom().subset_of(decode_attributes(bytes, found)->0.dom()),
        bytes.len() > 0 ==> decode_attributes(bytes, found)->0.dom().len() > 0,
    decreases bytes.len(),
{
    if bytes.len() > 0 {
        let kind = be16(bytes[0], bytes[1]);
        let len = be16(bytes[2], bytes[3]) as int;
        let end = 4 + padded_len(len as nat) as int;
        let more = found.insert(kind, bytes.subrange(4, 4 + len));
        lemma_decoded_attributes(bytes.skip(end), more);
        let all = decode_attributes(bytes, found)->0;
        assert(more.dom().contains(kind));
        assert(all.dom().contains(kind));
    }
}

/// What is read is canonical: whatever bytes a message is read from, its
/// class and method are ones that a message type can hold, its transaction
/// id has twelve bytes, and it holds no attributes or at least one.
pub proof fn lemma_decoded_is_canonical(bytes: Seq<u8>)
    requires
        decode_message(bytes) is Some,
    ensures
        decode_message(bytes)->0.canonical(),
{
    lemma_message_type_decodes_canonical(be16(bytes[0], bytes[1]));
    if bytes.len() > HEADER_BYTE_SIZE {
        lemma_decoded_attributes(bytes.skip(HEADER_BYTE_SIZE as int), Map::empty());
    }
}

/// Fewer than 20 bytes are no message.
pub proof fn lemma_short_header_rejected(bytes: Seq<u8>)
    requires
        bytes.len() < HEADER_BYTE_SIZE,
    ensures
        decode_message(bytes) is None,
{
}

/// A datagram that ends within an attribute is no message: after a header
/// and any number of whole attributes, neither one to three bytes, nor the
/// kind and length of an attribute with fewer bytes behind them than the
/// declared length and its padding ask for, are read as attributes.
pub proof fn lemma_truncated_attribute_rejected(
    header: HeaderView,
    order: Seq<u16>,
    attributes: Map<u16, Seq<u8>>,
    tail: Seq<u8>,
)
    requires
        header.canonical(),
        values_fit(attributes),
        forall|i: int| 0 <= i < order.len() ==> attributes.contains_key(#[trigger] order[i]),
        0 < tail.len(),
        tail.len() < 4 || tail.len() < 4 + padded_len(be16(tail[2], tail[3]) as nat),
    ensures
        decode_message(encode_header(header) + encode_attributes(order, attributes) + tail)
            is None,
{
    let section = encode_attributes(order, attributes) + tail;
    let bytes = encode_header(header) + encode_attributes(order, attributes) + tail;
    assert(bytes =~= encode_header(header) + section);
    lemma_header_roundtrip(header, section);
    assert(bytes.skip(HEADER_BYTE_SIZE as int) =~= section);
    lemma_attributes_roundtrip(order, attributes, tail, Map::empty());
    assert(decode_attributes(tail, with_attributes(Map::empty(), order, attributes)) is None);
}

} // verus!
