//! The joypad I/O port region of the CPU bus, present but not yet modeled.

use vstd::prelude::*;
use crate::addressable::{CpuAddressable, Error};

verus! {

/// The NES I/O port block. Every access is reserved: reads and writes
/// surface `Unimplemented` errors rather than silently succeeding.
pub struct NesIoPorts {}

impl NesIoPorts {
    pub fn new() -> (r: NesIoPorts) {
        NesIoPorts {}
    }
}

impl CpuAddressable for NesIoPorts {
    fn read(&mut self, address: u16) -> (r: Result<u8, Error>)
        ensures
            r == Err::<u8, Error>(Error::UnimplementedRead(address)),
    {
        Err(Error::UnimplementedRead(address))
    }

    fn write(&mut self, address: u16, _data: u8) -> (r: Result<(), Error>)
        ensures
            r == Err::<(), Error>(Error::UnimplementedWrite(address)),
    {
        Err(Error::UnimplementedWrite(address))
    }
}

} // verus!
