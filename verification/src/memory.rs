//! Checks made before allocating from DPDK's memory.

use vstd::prelude::*;
use crate::errno::Error;

verus! {

/// DPDK cannot allocate zero bytes: a zero-sized type is `InvalidArg`.
pub fn check_size(size: usize) -> (r: Result<(), Error>)
    ensures
        size == 0 ==> r == Err::<(), Error>(Error::InvalidArg),
        size != 0 ==> r is Ok,
{
    if size == 0 {
        Err(Error::InvalidArg)
    } else {
        Ok(())
    }
}

/// The outcome of an allocation call: a null result is `NoMem`.
pub fn check_alloc(is_null: bool) -> (r: Result<(), Error>)
    ensures
        is_null ==> r == Err::<(), Error>(Error::NoMem),
        !is_null ==> r is Ok,
{
    if is_null {
        Err(Error::NoMem)
    } else {
        Ok(())
    }
}

} // verus!
