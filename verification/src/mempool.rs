//! Memory pools: the allocator interface, the meaning of a pool's counters,
//! and the table that finds a pool handle again from the pool's address.

use vstd::prelude::*;
use std::collections::HashMap;
use crate::errno::Error;

verus! {

broadcast use vstd::std_specs::hash::group_hash_axioms;

/// An allocator of fixed-size objects, created under a name and with a
/// capacity, and found again by that name.
pub trait Mempool<T>: Sized {
    /// Creates a pool of `size` objects named `name`.
    fn create(name: &str, size: u32) -> crate::Result<Self>;

    /// Finds the pool named `name`.
    fn lookup(name: &str) -> crate::Result<Self>;

    /// Takes an object from the pool.
    fn get(&self) -> crate::Result<T>;

    /// Gives an object back to the pool.
    fn put(&self, object: T);

    /// Number of objects available.
    fn available(&self) -> u32;

    /// Number of objects in use.
    fn in_use(&self) -> u32;

    /// Whether no object is available.
    fn is_empty(&self) -> bool;

    /// Whether every object is available.
    fn is_full(&self) -> bool;
}

/// A pool is empty when no object is available.
pub fn pool_is_empty(avail: u32) -> (r: bool)
    ensures
        r == (avail == 0),
{
    avail == 0
}

/// A pool is full when all of its `size` objects are available.
pub fn pool_is_full(avail: u32, size: u32) -> (r: bool)
    ensures
        r == (avail == size),
{
    avail == size
}

/// Pools by address: each pool created registers a handle under its
/// address, so that a lookup by name can find the same handle again.
pub struct PoolRegistry<W> {
    pools: HashMap<usize, W>,
}

impl<W> PoolRegistry<W> {
    /// The registered handles by pool address.
    pub closed spec fn entries(&self) -> Map<usize, W> {
        self.pools@
    }

    /// An empty registry.
    pub fn new() -> (r: PoolRegistry<W>)
        ensures
            r.entries() == Map::<usize, W>::empty(),
    {
        PoolRegistry { pools: HashMap::new() }
    }

    /// Registers `handle` for the pool at `addr`, replacing any earlier one.
    pub fn register(&mut self, addr: usize, handle: W)
        ensures
            final(self).entries() == old(self).entries().insert(addr, handle),
    {
        let _ = self.pools.insert(addr, handle);
    }

    /// The handle registered for the pool at `addr`; `NotExist` when none is.
    pub fn lookup(&self, addr: usize) -> (r: Result<&W, Error>)
        ensures
            self.entries().contains_key(addr) ==> r == Ok::<&W, Error>(&self.entries()[addr]),
            !self.entries().contains_key(addr) ==> r == Err::<&W, Error>(Error::NotExist),
    {
        match self.pools.get(&addr) {
            Some(w) => Ok(w),
            None => Err(Error::NotExist),
        }
    }
}

} // verus!
