//! Identifiers of assets and of the accounts that own them.
use vstd::bytes::{
    lemma_auto_spec_u128_to_from_le_bytes, spec_u128_from_le_bytes, spec_u128_to_le_bytes,
    u128_from_le_bytes, u128_to_le_bytes,
};
use vstd::prelude::*;
use vstd::slice::slice_subrange;

use crate::key::Key;

verus! {

/// The 32 bytes that a pair of halves stands for: the first half in
/// little-endian order, then the second.
pub open spec fn halves_to_bytes(head: u128, tail: u128) -> Seq<u8> {
    spec_u128_to_le_bytes(head) + spec_u128_to_le_bytes(tail)
}

/// The halves that 32 bytes stand for.
pub open spec fn bytes_to_halves(bytes: Seq<u8>) -> (u128, u128) {
    (
        spec_u128_from_le_bytes(bytes.subrange(0, 16)),
        spec_u128_from_le_bytes(bytes.subrange(16, 32)),
    )
}

/// Reading 32 bytes as halves and writing them back gives the same bytes,
/// and the other way round.
pub proof fn lemma_halves_round_trip()
    ensures
        forall|head: u128, tail: u128|
            {
                &&& (#[trigger] halves_to_bytes(head, tail)).len() == 32
                &&& bytes_to_halves(halves_to_bytes(head, tail)) == (head, tail)
            },
        forall|bytes: Seq<u8>|
            bytes.len() == 32 ==> {
                let h = #[trigger] bytes_to_halves(bytes);
                halves_to_bytes(h.0, h.1) == bytes
            },
{
    lemma_auto_spec_u128_to_from_le_bytes();
    assert forall|head: u128, tail: u128|
        {
            &&& (#[trigger] halves_to_bytes(head, tail)).len() == 32
            &&& bytes_to_halves(halves_to_bytes(head, tail)) == (head, tail)
        } by {
        let a = spec_u128_to_le_bytes(head);
        let b = spec_u128_to_le_bytes(tail);
        assert((a + b).subrange(0, 16) =~= a);
        assert((a + b).subrange(16, 32) =~= b);
    }
    assert forall|bytes: Seq<u8>| bytes.len() == 32 implies {
        let h = #[trigger] bytes_to_halves(bytes);
        halves_to_bytes(h.0, h.1) == bytes
    } by {
        assert(bytes.subrange(0, 16) + bytes.subrange(16, 32) =~= bytes);
    }
}

/// Reads 32 bytes as two halves.
fn read_halves(bytes: &[u8; 32]) -> (h: (u128, u128))
    ensures
        h == bytes_to_halves(bytes@),
{
    let all = bytes.as_slice();
    let head = u128_from_le_bytes(slice_subrange(all, 0, 16));
    let tail = u128_from_le_bytes(slice_subrange(all, 16, 32));
    (head, tail)
}

/// Writes two halves as 32 bytes.
fn write_halves(head: u128, tail: u128) -> (bytes: [u8; 32])
    ensures
        bytes@ == halves_to_bytes(head, tail),
{
    let first = u128_to_le_bytes(head);
    let second = u128_to_le_bytes(tail);
    let mut bytes = [0u8; 32];
    let mut i: usize = 0;
    while i < 16
        invariant
            i <= 16,
            first@.len() == 16,
            second@.len() == 16,
            forall|j: int| 0 <= j < i ==> bytes@[j] == first@[j],
            forall|j: int| 0 <= j < i ==> bytes@[16 + j] == second@[j],
        decreases 16 - i,
    {
        bytes[i] = first[i];
        bytes[i + 16] = second[i];
        i += 1;
    }
    assert(bytes@ =~= first@ + second@);
    bytes
}

/// The identifier of an asset: a 256-bit digest.
#[derive(Clone, Copy, Debug, PartialEq, Eq, Structural, Hash)]
pub struct AssetId {
    /// The first 16 bytes, read in little-endian order.
    pub head: u128,
    /// The last 16 bytes, read in little-endian order.
    pub tail: u128,
}

impl AssetId {
    /// The 32 bytes of the identifier.
    pub open spec fn bytes(self) -> Seq<u8> {
        halves_to_bytes(self.head, self.tail)
    }

    /// The identifier that 32 bytes stand for.
    pub open spec fn of_bytes(bytes: Seq<u8>) -> AssetId {
        let h = bytes_to_halves(bytes);
        AssetId { head: h.0, tail: h.1 }
    }

    /// The identifier that `bytes` stand for.
    pub fn from_bytes(bytes: [u8; 32]) -> (id: AssetId)
        ensures
            id == AssetId::of_bytes(bytes@),
            id.bytes() == bytes@,
    {
        proof {
            lemma_halves_round_trip();
        }
        let h = read_halves(&bytes);
        AssetId { head: h.0, tail: h.1 }
    }

    /// The 32 bytes of the identifier.
    pub fn to_bytes(&self) -> (bytes: [u8; 32])
        ensures
            bytes@ == self.bytes(),
            AssetId::of_bytes(bytes@) == *self,
    {
        proof {
            lemma_halves_round_trip();
        }
        write_halves(self.head, self.tail)
    }
}

impl Key for AssetId {
    open spec fn halves(self) -> (u128, u128) {
        (self.head, self.tail)
    }

    fn head(&self) -> (h: u128) {
        self.head
    }

    fn tail(&self) -> (t: u128) {
        self.tail
    }

    proof fn halves_identify(a: Self, b: Self) {
    }
}

/// The identifier of an account: 32 opaque bytes, compared for equality
/// and used as a lookup key, nothing more.
#[derive(Clone, Copy, Debug, PartialEq, Eq, Structural, Hash)]
pub struct OwnerId {
    /// The first 16 bytes, read in little-endian order.
    pub head: u128,
    /// The last 16 bytes, read in little-endian order.
    pub tail: u128,
}

impl OwnerId {
    /// The 32 bytes of the identifier.
    pub open spec fn bytes(self) -> Seq<u8> {
        halves_to_bytes(self.head, self.tail)
    }

    /// The identifier that 32 bytes stand for.
    pub open spec fn of_bytes(bytes: Seq<u8>) -> OwnerId {
        let h = bytes_to_halves(bytes);
        OwnerId { head: h.0, tail: h.1 }
    }

    /// The identifier that `bytes` stand for.
    pub fn from_bytes(bytes: [u8; 32]) -> (id: OwnerId)
        ensures
            id == OwnerId::of_bytes(bytes@),
            id.bytes() == bytes@,
    {
        proof {
            lemma_halves_round_trip();
        }
        let h = read_halves(&bytes);
        OwnerId { head: h.0, tail: h.1 }
    }

    /// The 32 bytes of the identifier.
    pub fn to_bytes(&self) -> (bytes: [u8; 32])
        ensures
            bytes@ == self.bytes(),
            OwnerId::of_bytes(bytes@) == *self,
    {
        proof {
            lemma_halves_round_trip();
        }
        write_halves(self.head, self.tail)
    }
}

impl Key for OwnerId {
    open spec fn halves(self) -> (u128, u128) {
        (self.head, self.tail)
    }

    fn head(&self) -> (h: u128) {
        self.head
    }

    fn tail(&self) -> (t: u128) {
        self.tail
    }

    proof fn halves_identify(a: Self, b: Self) {
    }
}

} // verus!
