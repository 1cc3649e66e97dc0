//! The set of addresses currently recognised as tracked pools.

use vstd::prelude::*;
use crate::primitives::Address;

verus! {

/// A set of tracked pool addresses, with membership test and insertion.
#[derive(Debug)]
pub struct PoolRegistry {
    pools: Vec<Address>,
}

impl View for PoolRegistry {
    type V = Set<Address>;

    closed spec fn view(&self) -> Set<Address> {
        self.pools@.to_set()
    }
}

/// Whether `a` occurs in `list`.
pub fn address_listed(list: &Vec<Address>, a: Address) -> (r: bool)
    ensures
        r == list@.contains(a),
{
    let mut i: usize = 0;
    while i < list.len()
        invariant
            i <= list.len(),
            forall|j: int| 0 <= j < i ==> list@[j] != a,
        decreases list.len() - i,
    {
        if list[i] == a {
            return true;
        }
        i = i + 1;
    }
    false
}

impl PoolRegistry {
    /// An empty registry.
    pub fn new() -> (r: PoolRegistry)
        ensures
            r@ == Set::<Address>::empty(),
    {
        let r = PoolRegistry { pools: Vec::new() };
        proof {
            assert(r@ =~= Set::<Address>::empty());
        }
        r
    }

    /// A registry seeded with the given addresses, as loaded at start-up.
    pub fn from_addresses(addresses: &Vec<Address>) -> (r: PoolRegistry)
        ensures
            r@ == addresses@.to_set(),
    {
        let mut r = PoolRegistry::new();
        let mut i: usize = 0;
        while i < addresses.len()
            invariant
                i <= addresses.len(),
                r@ == addresses@.take(i as int).to_set(),
            decreases addresses.len() - i,
        {
            r.insert(addresses[i]);
            proof {
                assert(addresses@.take(i + 1) == addresses@.take(i as int).push(addresses@[i as int]));
                addresses@.take(i as int).lemma_push_to_set_commute(addresses@[i as int]);
            }
            i = i + 1;
        }
        proof {
            assert(addresses@.take(addresses.len() as int) == addresses@);
        }
        r
    }

    /// Whether `a` is a tracked pool.
    pub fn contains(&self, a: Address) -> (r: bool)
        ensures
            r == self@.contains(a),
    {
        address_listed(&self.pools, a)
    }

    /// Starts tracking `a`.
    pub fn insert(&mut self, a: Address)
        ensures
            final(self)@ == old(self)@.insert(a),
    {
        if !address_listed(&self.pools, a) {
            proof {
                self.pools@.lemma_push_to_set_commute(a);
            }
            self.pools.push(a);
        } else {
            proof {
                assert(old(self)@.insert(a) =~= old(self)@);
            }
        }
    }

    /// A registry with the same members.
    pub fn duplicate(&self) -> (r: PoolRegistry)
        ensures
            r@ == self@,
    {
        let mut pools: Vec<Address> = Vec::new();
        let mut i: usize = 0;
        while i < self.pools.len()
            invariant
                i <= self.pools.len(),
                pools@ == self.pools@.take(i as int),
            decreases self.pools.len() - i,
        {
            pools.push(self.pools[i]);
            proof {
                assert(self.pools@.take(i + 1) == self.pools@.take(i as int).push(self.pools@[i as int]));
            }
            i = i + 1;
        }
        proof {
            assert(self.pools@.take(self.pools.len() as int) == self.pools@);
        }
        PoolRegistry { pools }
    }

    /// The tracked addresses, each once.
    pub fn members(&self) -> (r: Vec<Address>)
        ensures
            r@.to_set() == self@,
    {
        let d = self.duplicate();
        d.pools
    }
}

} // verus!
