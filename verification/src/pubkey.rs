//! Account addresses.

use vstd::bytes;
use vstd::prelude::*;
use vstd::slice::slice_subrange;

verus! {

/// The address of an account: 32 bytes.
#[derive(Clone, Copy, Debug, Eq)]
pub struct Pubkey {
    pub bytes: [u8; 32],
}

impl View for Pubkey {
    type V = Seq<u8>;

    /// The bytes of the address.
    open spec fn view(&self) -> Seq<u8> {
        self.bytes@
    }
}

impl PartialEq for Pubkey {
    fn eq(&self, other: &Self) -> (equal: bool) {
        let mut i: usize = 0;
        while i < 32
            invariant
                i <= 32,
                self.bytes@.len() == 32,
                other.bytes@.len() == 32,
                forall|j: int| 0 <= j < i ==> self.bytes@[j] == other.bytes@[j],
            decreases 32 - i,
        {
            if self.bytes[i] != other.bytes[i] {
                return false;
            }
            i += 1;
        }
        assert(self.bytes@ =~= other.bytes@);
        true
    }
}

impl vstd::std_specs::cmp::PartialEqSpecImpl for Pubkey {
    open spec fn obeys_eq_spec() -> bool {
        true
    }

    open spec fn eq_spec(&self, other: &Self) -> bool {
        self@ == other@
    }
}

impl Pubkey {
    /// The two halves of the address, each read as a little-endian number.
    pub open spec fn halves(self) -> (u128, u128) {
        (
            bytes::spec_u128_from_le_bytes(self@.subrange(0, 16)),
            bytes::spec_u128_from_le_bytes(self@.subrange(16, 32)),
        )
    }

    /// The address as a pair of numbers, by which a set can order it.
    pub fn to_halves(&self) -> (halves: (u128, u128))
        ensures
            halves == self.halves(),
    {
        let address = self.bytes.as_slice();
        (
            bytes::u128_from_le_bytes(slice_subrange(address, 0, 16)),
            bytes::u128_from_le_bytes(slice_subrange(address, 16, 32)),
        )
    }
}

/// Two addresses with the same halves are the same address.
pub proof fn lemma_halves_injective(a: Pubkey, b: Pubkey)
    ensures
        a.halves() == b.halves() <==> a@ == b@,
{
    bytes::lemma_auto_spec_u128_to_from_le_bytes();
    if a.halves() == b.halves() {
        assert(a@.len() == 32 && b@.len() == 32);
        assert(bytes::spec_u128_to_le_bytes(a.halves().0) == a@.subrange(0, 16));
        assert(bytes::spec_u128_to_le_bytes(b.halves().0) == b@.subrange(0, 16));
        assert(bytes::spec_u128_to_le_bytes(a.halves().1) == a@.subrange(16, 32));
        assert(bytes::spec_u128_to_le_bytes(b.halves().1) == b@.subrange(16, 32));
        assert(a@ =~= a@.subrange(0, 16) + a@.subrange(16, 32));
        assert(b@ =~= b@.subrange(0, 16) + b@.subrange(16, 32));
    }
}

} // verus!
