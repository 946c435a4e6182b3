//! Twenty-byte account addresses and immutable sets of them.

use crate::base16::prefixed_hex;
use vstd::prelude::*;

verus! {

/// A twenty-byte account address.
#[derive(Debug, Clone, Copy, PartialEq, Eq, Hash)]
pub struct Address {
    pub bytes: [u8; 20],
}

/// The twenty bytes that a byte string of any length stands for as an
/// address. The string is aligned on its last byte: a shorter one is filled
/// up with zero bytes in front, of a longer one the last twenty bytes are
/// kept.
pub open spec fn canonical_bytes(src: Seq<u8>) -> Seq<u8> {
    Seq::new(
        20,
        |i: int|
            if i + src.len() >= 20 {
                src[i + src.len() - 20]
            } else {
                0u8
            },
    )
}

/// Twenty bytes stand for themselves.
pub proof fn lemma_canonical_of_twenty(src: Seq<u8>)
    requires
        src.len() == 20,
    ensures
        canonical_bytes(src) == src,
{
    assert(canonical_bytes(src) =~= src);
}

impl View for Address {
    type V = Seq<u8>;

    open spec fn view(&self) -> Seq<u8> {
        self.bytes@
    }
}

impl Address {
    /// Builds the address that `src` stands for, see [`canonical_bytes`].
    pub fn from_slice(src: &[u8]) -> (a: Address)
        ensures
            a@ == canonical_bytes(src@),
            src@.len() == 20 ==> a@ == src@,
    {
        let mut bytes = [0u8; 20];
        let n = src.len();
        let mut i: usize = 0;
        while i < 20
            invariant
                i <= 20,
                n == src@.len(),
                forall|j: int| 0 <= j < i ==> bytes@[j] == canonical_bytes(src@)[j],
            decreases 20 - i,
        {
            if n >= 20 - i {
                bytes[i] = src[n - (20 - i)];
            } else {
                bytes[i] = 0;
            }
            i += 1;
        }
        assert(bytes@ =~= canonical_bytes(src@));
        proof {
            if src@.len() == 20 {
                lemma_canonical_of_twenty(src@);
            }
        }
        Address { bytes }
    }

    /// True when both addresses hold the same bytes.
    pub fn same(&self, other: &Address) -> (b: bool)
        ensures
            b == (self@ == other@),
    {
        let mut i: usize = 0;
        while i < 20
            invariant
                i <= 20,
                forall|j: int| 0 <= j < i ==> self.bytes@[j] == other.bytes@[j],
            decreases 20 - i,
        {
            if self.bytes[i] != other.bytes[i] {
                return false;
            }
            i += 1;
        }
        assert(self@ =~= other@);
        true
    }
}

/// Formats an address as `web3::types::H160` does with `{:?}`: `0x` and
/// the forty lower-case hexadecimal digits of its twenty bytes.
#[verifier::external_body]
fn h160_debug(bytes: &[u8; 20]) -> (text: String)
    ensures
        text@ == prefixed_hex(bytes@),
{
    format!("{:?}", web3::types::H160::from_slice(bytes))
}

impl Address {
    /// The address as text: `0x` and forty lower-case hexadecimal digits.
    pub fn to_text(&self) -> (text: String)
        ensures
            text@ == prefixed_hex(self@),
    {
        h160_debug(&self.bytes)
    }
}

/// The addresses of a sequence, each as its bytes, in their order.
pub open spec fn views_of(entries: Seq<Address>) -> Seq<Seq<u8>> {
    Seq::new(entries.len(), |i: int| entries[i]@)
}

/// The set of the addresses that a sequence holds, each as its bytes.
pub open spec fn addresses_of(entries: Seq<Address>) -> Set<Seq<u8>> {
    views_of(entries).to_set()
}

/// An immutable set of addresses. It is built whole and never changed.
#[derive(Debug)]
pub struct AddressSet {
    entries: Vec<Address>,
}

impl View for AddressSet {
    type V = Set<Seq<u8>>;

    closed spec fn view(&self) -> Set<Seq<u8>> {
        addresses_of(self.entries@)
    }
}

impl AddressSet {
    /// The set of the addresses in `entries`.
    pub fn from_vec(entries: Vec<Address>) -> (set: AddressSet)
        ensures
            set@ == addresses_of(entries@),
    {
        AddressSet { entries }
    }

    /// True when the set holds no address.
    pub fn is_empty(&self) -> (b: bool)
        ensures
            b == (self@ == Set::<Seq<u8>>::empty()),
    {
        let b = self.entries.len() == 0;
        proof {
            let views = views_of(self.entries@);
            if b {
                assert(self@ =~= Set::<Seq<u8>>::empty());
            } else {
                assert(views[0] == self.entries@[0]@);
                assert(self@.contains(views[0]));
            }
        }
        b
    }

    /// True when the set holds the address.
    pub fn contains(&self, address: &Address) -> (b: bool)
        ensures
            b == self@.contains(address@),
    {
        let mut i: usize = 0;
        while i < self.entries.len()
            invariant
                i <= self.entries@.len(),
                forall|j: int| 0 <= j < i ==> self.entries@[j]@ != address@,
            decreases self.entries@.len() - i,
        {
            if self.entries[i].same(address) {
                assert(views_of(self.entries@)[i as int] == address@);
                return true;
            }
            i += 1;
        }
        assert forall|j: int| 0 <= j < views_of(self.entries@).len() implies views_of(
            self.entries@,
        )[j] != address@ by {
            assert(views_of(self.entries@)[j] == self.entries@[j]@);
        }
        false
    }
}

} // verus!
