//! How signed transactions are written, and that decoding reads them back.
//!
//! Nothing here is executable: the gateway never encodes a transaction. The
//! encoding is stated to say what the decoder of [`crate::envelope`] is
//! right about.

use crate::base16::{lemma_prefixed_hex_decodes, prefixed_hex};
use crate::envelope::{
    all_zero, be_value, item_at, item_position, lemma_recipient_bytes, pow256, recipient_bytes,
    recipient_digits, recipient_in_list, recipient_offset, strip_prefix, DecodeError,
    EnvelopeKind, Span,
};
use vstd::prelude::*;

verus! {

/// The bytes that write `n` in base 256, most significant byte first and
/// without a zero byte in front.
pub open spec fn be_bytes(n: nat) -> Seq<u8>
    decreases n,
{
    if n == 0 {
        Seq::empty()
    } else {
        be_bytes(n / 256).push((n % 256) as u8)
    }
}

/// A field of a transaction before it is encoded: a string of bytes, or a
/// list given by the bytes that its items encode to.
pub struct Field {
    pub is_list: bool,
    pub payload: Seq<u8>,
}

/// The tag of an item, with the bytes that write its length where the
/// payload has 56 bytes or more.
pub open spec fn encode_header(is_list: bool, len: nat) -> Seq<u8> {
    let base: int = if is_list {
        0xc0
    } else {
        0x80
    };
    if len < 56 {
        seq![(base + len) as u8]
    } else {
        seq![(base + 55 + be_bytes(len).len()) as u8] + be_bytes(len)
    }
}

/// The encoding of a field: a single byte below `0x80` stands for itself,
/// anything else follows its header.
pub open spec fn encode_field(field: Field) -> Seq<u8> {
    if !field.is_list && field.payload.len() == 1 && field.payload[0] < 0x80 {
        field.payload
    } else {
        encode_header(field.is_list, field.payload.len()) + field.payload
    }
}

/// The encodings of fields, one behind the other.
pub open spec fn encode_fields(fields: Seq<Field>) -> Seq<u8>
    decreases fields.len(),
{
    if fields.len() == 0 {
        Seq::empty()
    } else {
        encode_field(fields[0]) + encode_fields(fields.drop_first())
    }
}

/// The byte that names the format, for the formats that have one.
pub open spec fn format_prefix(kind: EnvelopeKind) -> Seq<u8> {
    match kind {
        EnvelopeKind::Legacy => Seq::empty(),
        EnvelopeKind::AccessList => seq![0x01u8],
        EnvelopeKind::DynamicFee => seq![0x02u8],
    }
}

/// The encoding of a transaction of the given format: the list of its
/// fields behind the byte that names the format.
pub open spec fn encode_transaction(kind: EnvelopeKind, fields: Seq<Field>) -> Seq<u8> {
    format_prefix(kind) + encode_field(Field { is_list: true, payload: encode_fields(fields) })
}

/// Reading a number back from the bytes that write it gives the number.
pub proof fn lemma_be_bytes_value(n: nat)
    ensures
        be_value(be_bytes(n)) == n,
    decreases n,
{
    if n > 0 {
        lemma_be_bytes_value(n / 256);
        assert(be_bytes(n).drop_last() =~= be_bytes(n / 256));
    }
}

/// A number below `256^w` is written in at most `w` bytes, and a number
/// above zero in at least one.
pub proof fn lemma_be_bytes_len(n: nat, w: nat)
    requires
        n < pow256(w),
    ensures
        be_bytes(n).len() <= w,
        n > 0 ==> be_bytes(n).len() >= 1,
    decreases n,
{
    if n > 0 {
        if w == 0 {
            assert(pow256(0) == 1);
        } else {
            assert(pow256(w) == 256 * pow256((w - 1) as nat));
            lemma_be_bytes_len(n / 256, (w - 1) as nat);
        }
    }
}

/// Where the bytes hold the encoding of a field at `pos`, wholly before
/// `end`, the item read at `pos` is that field: of its kind, with its
/// payload behind the header.
pub proof fn lemma_item_at_encoded(b: Seq<u8>, pos: int, end: int, field: Field)
    requires
        0 <= pos,
        pos + encode_field(field).len() <= end <= b.len(),
        b.subrange(pos, pos + encode_field(field).len()) == encode_field(field),
        field.payload.len() <= u64::MAX,
    ensures
        encode_field(field).len() >= 1,
        encode_field(field).len() >= field.payload.len(),
        item_at(b, pos, end) == Some(
            Span {
                is_list: field.is_list,
                start: pos + encode_field(field).len() - field.payload.len(),
                len: field.payload.len() as int,
            },
        ),
{
    let enc = encode_field(field);
    let len = field.payload.len();
    let part = b.subrange(pos, pos + enc.len());
    if !field.is_list && len == 1 && field.payload[0] < 0x80 {
        assert(b[pos] == part[0]);
    } else {
        let header = encode_header(field.is_list, len);
        assert(enc.len() == header.len() + len);
        assert(b[pos] == part[0]);
        assert(enc[0] == header[0]);
        if len < 56 {
        } else {
            reveal_with_fuel(pow256, 10);
            assert(pow256(8) == 0x1_0000_0000_0000_0000);
            lemma_be_bytes_len(len, 8);
            lemma_be_bytes_value(len);
            let width = be_bytes(len).len() as int;
            assert(b.subrange(pos + 1, pos + 1 + width) =~= be_bytes(len)) by {
                assert forall|i: int| 0 <= i < width implies b.subrange(pos + 1, pos + 1 + width)[i]
                    == be_bytes(len)[i] by {
                    assert(b[pos + 1 + i] == part[1 + i]);
                    assert(enc[1 + i] == header[1 + i]);
                }
            }
        }
    }
}

/// The encoding of fields is as long as the encodings of its first fields
/// and of the rest together, and holds them in that order.
pub proof fn lemma_encode_fields_split(fields: Seq<Field>, n: int)
    requires
        0 <= n <= fields.len(),
    ensures
        encode_fields(fields) == encode_fields(fields.take(n)) + encode_fields(fields.skip(n)),
    decreases n,
{
    if n == 0 {
        assert(fields.skip(0) =~= fields);
        assert(fields.take(0) =~= Seq::<Field>::empty());
        assert(encode_fields(fields) =~= Seq::<u8>::empty() + encode_fields(fields));
    } else {
        let rest = fields.drop_first();
        lemma_encode_fields_split(rest, n - 1);
        assert(rest.take(n - 1) =~= fields.take(n).drop_first());
        assert(rest.skip(n - 1) =~= fields.skip(n));
        assert(fields.take(n)[0] == fields[0]);
        assert(encode_fields(fields) =~= encode_fields(fields.take(n)) + encode_fields(
            fields.skip(n),
        ));
    }
}

/// Where the bytes hold the encodings of fields from `pos` on, wholly
/// before `end`, stepping over the first `n` of them leads to the place
/// behind their encodings.
pub proof fn lemma_item_position_encoded(
    b: Seq<u8>,
    pos: int,
    end: int,
    fields: Seq<Field>,
    n: nat,
)
    requires
        0 <= pos,
        n <= fields.len(),
        pos + encode_fields(fields).len() <= end <= b.len(),
        b.subrange(pos, pos + encode_fields(fields).len()) == encode_fields(fields),
        encode_fields(fields).len() <= u64::MAX,
    ensures
        item_position(b, pos, end, n) == Ok::<int, DecodeError>(
            pos + encode_fields(fields.take(n as int)).len(),
        ),
    decreases n,
{
    if n == 0 {
        assert(fields.take(0) =~= Seq::<Field>::empty());
    } else {
        let first = encode_field(fields[0]);
        let rest = fields.drop_first();
        let all = encode_fields(fields);
        assert(all == first + encode_fields(rest));
        assert(b.subrange(pos, pos + first.len()) =~= first) by {
            assert forall|i: int| 0 <= i < first.len() implies b.subrange(pos, pos + first.len())[i]
                == first[i] by {
                assert(b[pos + i] == b.subrange(pos, pos + all.len())[i]);
            }
        }
        lemma_field_payload_fits(fields[0]);
        lemma_item_at_encoded(b, pos, end, fields[0]);
        let next = pos + first.len();
        assert(b.subrange(next, next + encode_fields(rest).len()) =~= encode_fields(rest)) by {
            assert forall|i: int| 0 <= i < encode_fields(rest).len() implies b.subrange(
                next,
                next + encode_fields(rest).len(),
            )[i] == encode_fields(rest)[i] by {
                assert(b[next + i] == b.subrange(pos, pos + all.len())[first.len() + i]);
            }
        }
        lemma_item_position_encoded(b, next, end, rest, (n - 1) as nat);
        assert(rest.take(n - 1) =~= fields.take(n as int).drop_first());
        assert(fields.take(n as int)[0] == fields[0]);
        assert(encode_fields(fields.take(n as int)) == first + encode_fields(rest.take(n - 1)));
    }
}

/// The payload of a field is no longer than its encoding.
pub proof fn lemma_field_payload_fits(field: Field)
    ensures
        field.payload.len() <= encode_field(field).len(),
        encode_field(field).len() >= 1,
{
}

/// The field in the recipient's place.
pub open spec fn recipient_field(kind: EnvelopeKind, fields: Seq<Field>) -> Field {
    fields[kind.recipient_index() as int]
}

/// True for the fields of a transaction: there are enough of them to hold a
/// recipient, the recipient is a string of twenty bytes or the empty one,
/// and the encoding is short enough for a length to be written in eight
/// bytes.
pub open spec fn is_transaction(kind: EnvelopeKind, fields: Seq<Field>) -> bool {
    &&& fields.len() > kind.recipient_index()
    &&& !recipient_field(kind, fields).is_list
    &&& recipient_field(kind, fields).payload.len() == 20 || recipient_field(
        kind,
        fields,
    ).payload.len() == 0
    &&& encode_transaction(kind, fields).len() <= u64::MAX
}

/// Decoding finds the recipient of every transaction that is encoded by
/// these rules: where the field in the recipient's place is a string of
/// twenty bytes, the decoder gives the place of exactly those bytes; where
/// it is the empty string, the decoder gives none.
pub proof fn lemma_decoding_finds_the_recipient(kind: EnvelopeKind, fields: Seq<Field>)
    requires
        is_transaction(kind, fields),
    ensures
        recipient_field(kind, fields).payload.len() == 0 ==> recipient_offset(
            encode_transaction(kind, fields),
        ) == Ok::<Option<int>, DecodeError>(None),
        recipient_field(kind, fields).payload.len() == 20 ==> (recipient_offset(
            encode_transaction(kind, fields),
        ) matches Ok(Some(at)) && 0 <= at && at + 20 <= encode_transaction(kind, fields).len()
            && encode_transaction(kind, fields).subrange(at, at + 20) == recipient_field(
            kind,
            fields,
        ).payload),
{
    let index = kind.recipient_index();
    let to = fields[index as int];
    let payload = encode_fields(fields);
    let list = Field { is_list: true, payload };
    let prefix = format_prefix(kind);
    let tx = encode_transaction(kind, fields);
    let start = kind.list_start();
    assert(prefix.len() == start);
    assert(tx.len() == start + encode_field(list).len());
    assert(tx.subrange(start, start + encode_field(list).len()) =~= encode_field(list));
    lemma_field_payload_fits(list);
    lemma_item_at_encoded(tx, start, tx.len() as int, list);
    let span = item_at(tx, start, tx.len() as int)->Some_0;
    assert(span.start + span.len == tx.len());
    assert(tx[0] == if kind is Legacy {
        encode_field(list)[0]
    } else {
        prefix[0]
    });
    assert(EnvelopeKind::of_leading_byte(tx[0]) == Some(kind)) by {
        if kind is Legacy {
            lemma_list_tag(payload.len());
        }
    }
    assert(tx.subrange(span.start, span.start + payload.len()) =~= payload);
    lemma_item_position_encoded(tx, span.start, tx.len() as int, fields, index);
    let pos = span.start + encode_fields(fields.take(index as int)).len();
    lemma_encode_fields_split(fields, index as int);
    let behind = fields.skip(index as int);
    assert(behind[0] == to);
    assert(encode_fields(behind) == encode_field(to) + encode_fields(behind.drop_first()));
    lemma_field_payload_fits(to);
    assert(tx.subrange(pos, pos + encode_field(to).len()) =~= encode_field(to)) by {
        assert forall|i: int| 0 <= i < encode_field(to).len() implies tx.subrange(
            pos,
            pos + encode_field(to).len(),
        )[i] == encode_field(to)[i] by {
            assert(tx[pos + i] == tx.subrange(span.start, span.start + payload.len())[pos
                - span.start + i]);
        }
    }
    lemma_item_at_encoded(tx, pos, tx.len() as int, to);
    assert(recipient_offset(tx) == recipient_in_list(tx, span, index));
    if to.payload.len() == 20 {
        let at = pos + encode_field(to).len() - 20;
        assert(tx.subrange(at, at + 20) =~= to.payload) by {
            assert forall|i: int| 0 <= i < 20 implies tx.subrange(at, at + 20)[i]
                == to.payload[i] by {
                assert(tx[at + i] == tx.subrange(pos, pos + encode_field(to).len())[at - pos + i]);
            }
        }
    }
}

/// The tag of a list is at least `0xc0`.
proof fn lemma_list_tag(len: nat)
    requires
        len <= u64::MAX,
    ensures
        encode_header(true, len)[0] >= 0xc0,
{
    if len >= 56 {
        reveal_with_fuel(pow256, 10);
        assert(pow256(8) == 0x1_0000_0000_0000_0000);
        lemma_be_bytes_len(len, 8);
    }
}

/// A transaction that is encoded by these rules and written in
/// hexadecimal behind `0x` decodes to the recipient that it was given: to
/// none where the recipient's field is empty or holds twenty zero bytes,
/// else to the twenty bytes of that field.
pub proof fn lemma_raw_transaction_gives_its_recipient(kind: EnvelopeKind, fields: Seq<Field>)
    requires
        is_transaction(kind, fields),
    ensures
        recipient_bytes(prefixed_hex(encode_transaction(kind, fields))) == Ok::<
            Option<Seq<u8>>,
            DecodeError,
        >(
            if recipient_field(kind, fields).payload.len() == 0 || all_zero(
                recipient_field(kind, fields).payload,
            ) {
                None
            } else {
                Some(recipient_field(kind, fields).payload)
            },
        ),
{
    let tx = encode_transaction(kind, fields);
    let text = prefixed_hex(tx);
    lemma_prefixed_hex_decodes(tx);
    assert(strip_prefix(text) == text.skip(2));
    lemma_decoding_finds_the_recipient(kind, fields);
    if recipient_digits(text) matches Ok(Some(_)) {
        lemma_recipient_bytes(text);
    }
}

} // verus!
