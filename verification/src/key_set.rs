//! A set of account addresses.

use crate::pubkey;
use crate::pubkey::Pubkey;
use std::collections::BTreeSet;
use vstd::prelude::*;

verus! {

/// A set of account addresses, ordered by their halves.
#[derive(Debug)]
pub struct KeySet {
    halves: BTreeSet<(u128, u128)>,
}

impl KeySet {
    /// The set holds `key`.
    pub closed spec fn holds(self, key: Pubkey) -> bool {
        self.halves@.contains(key.halves())
    }

    /// The empty set.
    pub fn new() -> (set: KeySet)
        ensures
            forall|key: Pubkey| !(#[trigger] set.holds(key)),
    {
        KeySet { halves: BTreeSet::new() }
    }

    /// Adds `key`, and says whether it is new.
    pub fn insert(&mut self, key: Pubkey) -> (is_new: bool)
        ensures
            is_new == !old(self).holds(key),
            forall|other: Pubkey| #[trigger]
                final(self).holds(other) <==> old(self).holds(other) || other@ == key@,
    {
        broadcast use vstd::laws_cmp::group_laws_cmp;

        assert(vstd::laws_cmp::obeys_cmp::<(u128, u128)>());
        let is_new: bool = self.halves.insert(key.to_halves());
        proof {
            assert forall|other: Pubkey| #[trigger]
                self.holds(other) <==> old(self).holds(other) || other@ == key@ by {
                pubkey::lemma_halves_injective(other, key);
            }
        }
        is_new
    }
}

} // verus!
