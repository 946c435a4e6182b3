//! Structural decoding of signed transaction envelopes.
//!
//! A signed transaction is a length-prefixed list of fields, for the typed
//! formats behind one byte that names the format. Only as much of it is read
//! as is needed to find the field that holds the recipient.

use crate::base16::{
    hex_value, is_hex, is_hex_digit, lemma_hex_ignores_case, same_text_ignoring_case,
};
use vstd::prelude::*;

verus! {

/// Why a raw transaction could not be decoded.
#[derive(Debug, Clone, Copy, PartialEq, Eq, Structural)]
pub enum DecodeError {
    /// The text is not hexadecimal.
    InvalidHex,
    /// The bytes end before the recipient field has been read.
    TooShort,
    /// The leading byte names no known transaction format.
    UnsupportedType,
    /// The bytes are not laid out as a transaction of their format.
    Malformed,
}

impl DecodeError {
    /// What went wrong, in words.
    pub open spec fn message_text(self) -> Seq<char> {
        match self {
            DecodeError::InvalidHex => "not hexadecimal"@,
            DecodeError::TooShort => "too short"@,
            DecodeError::UnsupportedType => "unsupported transaction type"@,
            DecodeError::Malformed => "malformed transaction"@,
        }
    }

    /// What went wrong, in words.
    pub fn message(&self) -> (text: String)
        ensures
            text@ == self.message_text(),
    {
        match self {
            DecodeError::InvalidHex => "not hexadecimal".to_owned(),
            DecodeError::TooShort => "too short".to_owned(),
            DecodeError::UnsupportedType => "unsupported transaction type".to_owned(),
            DecodeError::Malformed => "malformed transaction".to_owned(),
        }
    }
}

/// The transaction formats that are understood.
#[derive(Debug, Clone, Copy, PartialEq, Eq, Structural)]
pub enum EnvelopeKind {
    /// A bare list of fields.
    Legacy,
    /// Format byte `0x01`: a transaction with an access list.
    AccessList,
    /// Format byte `0x02`: a transaction with dynamic fees.
    DynamicFee,
}

impl EnvelopeKind {
    /// The format that a transaction with this leading byte has.
    pub open spec fn of_leading_byte(first: u8) -> Option<EnvelopeKind> {
        if first >= 0xc0 {
            Some(EnvelopeKind::Legacy)
        } else if first == 0x01 {
            Some(EnvelopeKind::AccessList)
        } else if first == 0x02 {
            Some(EnvelopeKind::DynamicFee)
        } else {
            None
        }
    }

    /// Where the list of fields begins.
    pub open spec fn list_start(self) -> int {
        match self {
            EnvelopeKind::Legacy => 0,
            EnvelopeKind::AccessList => 1,
            EnvelopeKind::DynamicFee => 1,
        }
    }

    /// The number of fields that stand before the recipient.
    pub open spec fn recipient_index(self) -> nat {
        match self {
            EnvelopeKind::Legacy => 3,
            EnvelopeKind::AccessList => 4,
            EnvelopeKind::DynamicFee => 5,
        }
    }

    /// Tells the format from the leading byte of a transaction.
    pub fn from_leading_byte(first: u8) -> (kind: Option<EnvelopeKind>)
        ensures
            kind == Self::of_leading_byte(first),
    {
        if first >= 0xc0 {
            Some(EnvelopeKind::Legacy)
        } else if first == 0x01 {
            Some(EnvelopeKind::AccessList)
        } else if first == 0x02 {
            Some(EnvelopeKind::DynamicFee)
        } else {
            None
        }
    }

    /// Exec counterpart of [`EnvelopeKind::list_start`].
    pub fn list_offset(&self) -> (start: usize)
        ensures
            start == self.list_start(),
    {
        match self {
            EnvelopeKind::Legacy => 0,
            EnvelopeKind::AccessList => 1,
            EnvelopeKind::DynamicFee => 1,
        }
    }

    /// Exec counterpart of [`EnvelopeKind::recipient_index`].
    pub fn fields_before_recipient(&self) -> (n: usize)
        ensures
            n == self.recipient_index(),
    {
        match self {
            EnvelopeKind::Legacy => 3,
            EnvelopeKind::AccessList => 4,
            EnvelopeKind::DynamicFee => 5,
        }
    }
}

/// Where the payload of an encoded item lies.
pub struct Span {
    pub is_list: bool,
    pub start: int,
    pub len: int,
}

/// An encoded item as it was read: its kind and the place of its payload.
#[derive(Debug, Clone, Copy, PartialEq, Eq)]
pub struct Item {
    pub is_list: bool,
    pub start: usize,
    pub len: usize,
}

impl View for Item {
    type V = Span;

    open spec fn view(&self) -> Span {
        Span { is_list: self.is_list, start: self.start as int, len: self.len as int }
    }
}

/// The number that `bytes` write in base 256, most significant byte first.
pub open spec fn be_value(bytes: Seq<u8>) -> nat
    decreases bytes.len(),
{
    if bytes.len() == 0 {
        0
    } else {
        be_value(bytes.drop_last()) * 256 + bytes.last() as nat
    }
}

/// A payload of `len` bytes from `start`, if it ends at or before `end`.
pub open spec fn payload_within(is_list: bool, start: int, len: int, end: int) -> Option<Span> {
    if start + len <= end {
        Some(Span { is_list, start, len })
    } else {
        None
    }
}

/// An item whose length is written in the `width` bytes after its tag.
pub open spec fn long_item(b: Seq<u8>, is_list: bool, pos: int, width: int, end: int) -> Option<
    Span,
> {
    if pos + 1 + width <= end {
        payload_within(
            is_list,
            pos + 1 + width,
            be_value(b.subrange(pos + 1, pos + 1 + width)) as int,
            end,
        )
    } else {
        None
    }
}

/// The item encoded at `pos`, if it lies wholly before `end`.
///
/// A tag below `0x80` is a one-byte string, itself. Tags from `0x80` hold
/// the length of a string of up to 55 bytes, tags from `0xb8` the width of
/// the length of a longer string; tags from `0xc0` and from `0xf8` do the
/// same for lists.
pub open spec fn item_at(b: Seq<u8>, pos: int, end: int) -> Option<Span> {
    if !(0 <= pos < end <= b.len()) {
        None
    } else {
        let tag = b[pos];
        if tag < 0x80 {
            Some(Span { is_list: false, start: pos, len: 1 })
        } else if tag < 0xb8 {
            payload_within(false, pos + 1, tag - 0x80, end)
        } else if tag < 0xc0 {
            long_item(b, false, pos, tag - 0xb7, end)
        } else if tag < 0xf8 {
            payload_within(true, pos + 1, tag - 0xc0, end)
        } else {
            long_item(b, true, pos, tag - 0xf7, end)
        }
    }
}

/// Where the item stands that comes `n` items after the one at `pos`, in a
/// list whose payload ends at `end`.
pub open spec fn item_position(b: Seq<u8>, pos: int, end: int, n: nat) -> Result<int, DecodeError>
    decreases n,
{
    if n == 0 {
        Ok(pos)
    } else if pos >= end {
        Err(DecodeError::TooShort)
    } else {
        match item_at(b, pos, end) {
            None => Err(DecodeError::Malformed),
            Some(item) => item_position(b, item.start + item.len, end, (n - 1) as nat),
        }
    }
}

/// The recipient field of a list of fields that lies at `list`: where its
/// twenty bytes begin, or `None` where the field is empty.
pub open spec fn recipient_in_list(b: Seq<u8>, list: Span, index: nat) -> Result<
    Option<int>,
    DecodeError,
> {
    let end = list.start + list.len;
    match item_position(b, list.start, end, index) {
        Err(e) => Err(e),
        Ok(pos) => if pos >= end {
            Err(DecodeError::TooShort)
        } else {
            match item_at(b, pos, end) {
                None => Err(DecodeError::Malformed),
                Some(item) => if item.is_list {
                    Err(DecodeError::Malformed)
                } else if item.len == 0 {
                    Ok(None)
                } else if item.len == 20 {
                    Ok(Some(item.start))
                } else {
                    Err(DecodeError::Malformed)
                },
            }
        },
    }
}

/// The recipient field of the transaction that `b` encodes: where its twenty
/// bytes begin, or `None` where the field is empty.
///
/// `TooShort` is given for bytes that end early: no byte at all, a list
/// that is announced longer than the bytes are, or a list that ends before
/// the recipient. `UnsupportedType` is given for a leading byte that is
/// neither a list tag nor a known format. Everything else that is not a
/// list of fields with a string of zero or twenty bytes in the recipient's
/// place, and nothing behind the list, is `Malformed`.
pub open spec fn recipient_offset(b: Seq<u8>) -> Result<Option<int>, DecodeError> {
    if b.len() == 0 {
        Err(DecodeError::TooShort)
    } else {
        match EnvelopeKind::of_leading_byte(b[0]) {
            None => Err(DecodeError::UnsupportedType),
            Some(kind) => match item_at(b, kind.list_start(), b.len() as int) {
                None => Err(DecodeError::TooShort),
                Some(list) => if !list.is_list || list.start + list.len != b.len() {
                    Err(DecodeError::Malformed)
                } else {
                    recipient_in_list(b, list, kind.recipient_index())
                },
            },
        }
    }
}

/// The power `256^n`.
pub open spec fn pow256(n: nat) -> nat
    decreases n,
{
    if n == 0 {
        1
    } else {
        256 * pow256((n - 1) as nat)
    }
}

/// A number written in at most eight bytes is below `2^64`.
pub proof fn lemma_be_value_bound(bytes: Seq<u8>)
    ensures
        be_value(bytes) < pow256(bytes.len()),
        bytes.len() <= 8 ==> pow256(bytes.len()) <= 0x1_0000_0000_0000_0000,
    decreases bytes.len(),
{
    if bytes.len() > 0 {
        lemma_be_value_bound(bytes.drop_last());
    }
    reveal_with_fuel(pow256, 10);
}

/// Reads the number that the `width` bytes from `from` write, most
/// significant byte first.
pub fn read_be(b: &[u8], from: usize, width: usize) -> (value: u64)
    requires
        width <= 8,
        from + width <= b@.len(),
    ensures
        value == be_value(b@.subrange(from as int, from + width)),
{
    let total = b.len();
    let mut value: u64 = 0;
    let mut i: usize = 0;
    while i < width
        invariant
            i <= width <= 8,
            from + width <= total == b@.len(),
            value == be_value(b@.subrange(from as int, from + i)),
        decreases width - i,
    {
        proof {
            let next = b@.subrange(from as int, from + i + 1);
            assert(next.drop_last() =~= b@.subrange(from as int, from + i));
            lemma_be_value_bound(next);
        }
        value = value * 256 + b[from + i] as u64;
        i += 1;
    }
    value
}

/// A payload of `len` bytes from `start`, if it ends at or before `end`.
fn item_within(is_list: bool, start: usize, len: u64, end: usize) -> (r: Option<Item>)
    requires
        start <= end,
    ensures
        r matches Some(item) ==> payload_within(is_list, start as int, len as int, end as int)
            == Some(item@),
        r is None ==> payload_within(is_list, start as int, len as int, end as int) is None,
{
    if len <= (end - start) as u64 {
        Some(Item { is_list, start, len: len as usize })
    } else {
        None
    }
}

/// Reads the item encoded at `pos`, if it lies wholly before `end`.
pub fn read_item(b: &[u8], pos: usize, end: usize) -> (r: Option<Item>)
    ensures
        r matches Some(item) ==> item_at(b@, pos as int, end as int) == Some(item@),
        r is None ==> item_at(b@, pos as int, end as int) is None,
{
    if pos >= end || end > b.len() {
        return None;
    }
    let tag = b[pos];
    if tag < 0x80 {
        Some(Item { is_list: false, start: pos, len: 1 })
    } else if tag < 0xb8 {
        item_within(false, pos + 1, (tag - 0x80) as u64, end)
    } else if tag < 0xc0 || tag >= 0xf8 {
        let is_list = tag >= 0xf8;
        let width: usize = if is_list {
            (tag - 0xf7) as usize
        } else {
            (tag - 0xb7) as usize
        };
        if width > end - pos - 1 {
            return None;
        }
        let len = read_be(b, pos + 1, width);
        item_within(is_list, pos + 1 + width, len, end)
    } else {
        item_within(true, pos + 1, (tag - 0xc0) as u64, end)
    }
}

/// Steps over `n` items of a list whose payload ends at `end`, from the item
/// at `pos` on, and gives the place of the next one.
pub fn skip_items(b: &[u8], pos: usize, end: usize, n: usize) -> (r: Result<usize, DecodeError>)
    ensures
        r matches Ok(p) ==> item_position(b@, pos as int, end as int, n as nat) == Ok::<
            int,
            DecodeError,
        >(p as int),
        r matches Err(e) ==> item_position(b@, pos as int, end as int, n as nat) == Err::<
            int,
            DecodeError,
        >(e),
{
    let mut at = pos;
    let mut left = n;
    while left > 0
        invariant
            item_position(b@, pos as int, end as int, n as nat) == item_position(
                b@,
                at as int,
                end as int,
                left as nat,
            ),
        decreases left,
    {
        if at >= end {
            return Err(DecodeError::TooShort);
        }
        match read_item(b, at, end) {
            None => {
                return Err(DecodeError::Malformed);
            },
            Some(item) => {
                at = item.start + item.len;
                left -= 1;
            },
        }
    }
    Ok(at)
}

/// Finds the recipient field of an encoded transaction: where its twenty
/// bytes begin, or `None` where the field is empty.
pub fn find_recipient(b: &[u8]) -> (r: Result<Option<usize>, DecodeError>)
    ensures
        r matches Err(e) ==> recipient_offset(b@) == Err::<Option<int>, DecodeError>(e),
        r matches Ok(None) ==> recipient_offset(b@) == Ok::<Option<int>, DecodeError>(None),
        r matches Ok(Some(at)) ==> recipient_offset(b@) == Ok::<Option<int>, DecodeError>(
            Some(at as int),
        ) && at + 20 <= b@.len(),
{
    if b.len() == 0 {
        return Err(DecodeError::TooShort);
    }
    let kind = match EnvelopeKind::from_leading_byte(b[0]) {
        None => {
            return Err(DecodeError::UnsupportedType);
        },
        Some(kind) => kind,
    };
    let list = match read_item(b, kind.list_offset(), b.len()) {
        None => {
            return Err(DecodeError::TooShort);
        },
        Some(list) => list,
    };
    if !list.is_list || list.start + list.len != b.len() {
        return Err(DecodeError::Malformed);
    }
    let end = b.len();
    let at = skip_items(b, list.start, end, kind.fields_before_recipient())?;
    if at >= end {
        return Err(DecodeError::TooShort);
    }
    match read_item(b, at, end) {
        None => Err(DecodeError::Malformed),
        Some(item) => {
            if item.is_list {
                Err(DecodeError::Malformed)
            } else if item.len == 0 {
                Ok(None)
            } else if item.len == 20 {
                Ok(Some(item.start))
            } else {
                Err(DecodeError::Malformed)
            }
        },
    }
}

/// The text of a raw transaction without the `0x` that may stand in front.
pub open spec fn strip_prefix(text: Seq<char>) -> Seq<char> {
    if text.len() >= 2 && text[0] == '0' && text[1] == 'x' {
        text.skip(2)
    } else {
        text
    }
}

/// True when every byte is zero.
pub open spec fn all_zero(bytes: Seq<u8>) -> bool {
    forall|i: int| 0 <= i < bytes.len() ==> #[trigger] bytes[i] == 0
}

/// True when the `len` bytes from `from` are all zero.
pub fn is_zero(b: &[u8], from: usize, len: usize) -> (r: bool)
    requires
        from + len <= b@.len(),
    ensures
        r == all_zero(b@.subrange(from as int, from + len)),
{
    let total = b.len();
    let mut i: usize = 0;
    while i < len
        invariant
            i <= len,
            from + len <= total == b@.len(),
            forall|j: int| from <= j < from + i ==> #[trigger] b@[j] == 0,
        decreases len - i,
    {
        if b[from + i] != 0 {
            assert(b@.subrange(from as int, from + len)[i as int] != 0);
            return false;
        }
        i += 1;
    }
    true
}

/// The recipient of the raw transaction that `text` writes in hexadecimal,
/// as the forty digits that `text` holds for it. A transaction whose
/// recipient field is empty or holds twenty zero bytes has none.
pub open spec fn recipient_digits(text: Seq<char>) -> Result<Option<Seq<char>>, DecodeError> {
    let body = strip_prefix(text);
    if !is_hex(body) {
        Err(DecodeError::InvalidHex)
    } else {
        let bytes = hex_value(body);
        match recipient_offset(bytes) {
            Err(e) => Err(e),
            Ok(None) => Ok(None),
            Ok(Some(at)) => if all_zero(bytes.subrange(at, at + 20)) {
                Ok(None)
            } else {
                Ok(Some(body.subrange(2 * at, 2 * at + 40)))
            },
        }
    }
}

/// The recipient of the raw transaction that `text` writes in hexadecimal,
/// as its twenty bytes.
pub open spec fn recipient_bytes(text: Seq<char>) -> Result<Option<Seq<u8>>, DecodeError> {
    match recipient_digits(text) {
        Err(e) => Err(e),
        Ok(None) => Ok(None),
        Ok(Some(digits)) => Ok(Some(hex_value(digits))),
    }
}

/// The digits of a recipient stand for the bytes of the recipient field:
/// twenty of them, not all zero, at the place that [`recipient_offset`]
/// gives.
pub proof fn lemma_recipient_bytes(text: Seq<char>)
    requires
        recipient_digits(text) matches Ok(Some(_)),
    ensures
        recipient_offset(hex_value(strip_prefix(text))) matches Ok(Some(at)) && 0 <= at && at + 20
            <= hex_value(strip_prefix(text)).len() && recipient_bytes(text) == Ok::<
            Option<Seq<u8>>,
            DecodeError,
        >(Some(hex_value(strip_prefix(text)).subrange(at, at + 20))),
        recipient_bytes(text) matches Ok(Some(bytes)) && bytes.len() == 20 && !all_zero(bytes)
            && is_hex(recipient_digits(text)->Ok_0->Some_0),
{
    let body = strip_prefix(text);
    let bytes = hex_value(body);
    let at = recipient_offset(bytes)->Ok_0->Some_0;
    lemma_recipient_offset_in_range(bytes);
    let digits = body.subrange(2 * at, 2 * at + 40);
    assert(hex_value(digits) =~= bytes.subrange(at, at + 20));
    assert forall|i: int| 0 <= i < digits.len() implies is_hex_digit(#[trigger] digits[i]) by {
        assert(digits[i] == body[2 * at + i]);
    }
}

/// Where a transaction has a recipient field, its twenty bytes lie within
/// the transaction.
pub proof fn lemma_recipient_offset_in_range(b: Seq<u8>)
    ensures
        recipient_offset(b) matches Ok(Some(at)) ==> 0 <= at && at + 20 <= b.len(),
{
}

/// Two raw transactions that both have `0x` in front or both have not, and
/// differ behind it at most in the case of their letters.
pub open spec fn same_digits_ignoring_case(text: Seq<char>, other: Seq<char>) -> bool {
    &&& strip_prefix(text).len() == text.len() <==> strip_prefix(other).len() == other.len()
    &&& same_text_ignoring_case(strip_prefix(text), strip_prefix(other))
}

/// What a raw transaction decodes to does not depend on the case in which
/// its hexadecimal digits are written: neither the recipient nor the error.
pub proof fn lemma_recipient_ignores_case(text: Seq<char>, other: Seq<char>)
    requires
        same_digits_ignoring_case(text, other),
    ensures
        recipient_bytes(text) == recipient_bytes(other),
{
    let a = strip_prefix(text);
    let b = strip_prefix(other);
    lemma_hex_ignores_case(a, b);
    if is_hex(a) {
        if recipient_digits(text) matches Ok(Some(_)) {
            lemma_recipient_bytes(text);
            lemma_recipient_bytes(other);
        }
    }
}

} // verus!
