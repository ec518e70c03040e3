//! Bus capabilities and the error kinds shared by every bus operation.

use vstd::prelude::*;

verus! {

/// The closed set of failures a bus or register access can surface.
///
/// `BusErrorRead`/`BusErrorWrite` report a PPU-space address outside every
/// mapped range; `IllegalRead`/`IllegalWrite` report a register access in a
/// direction the hardware does not support; the `Unimplemented` pair reports
/// an access to a reserved offset.
#[derive(Clone, Copy, Debug, PartialEq, Eq, Structural)]
pub enum Error {
    BusErrorRead(u16),
    BusErrorWrite(u16),
    IllegalRead(u16),
    IllegalWrite(u16),
    UnimplementedRead(u16),
    UnimplementedWrite(u16),
}

/// The three architectural regions of the PPU address space: pattern tables
/// (`0x0000..0x2000`), nametables with their mirror (`0x2000..0x3F00`), and
/// palette RAM with its mirrors (`0x3F00..0x4000`).
pub open spec fn bus_region(address: int) -> int {
    if address < 0x2000 {
        0
    } else if address < 0x3f00 {
        1
    } else {
        2
    }
}

/// Whether two bus addresses can alias through mirroring: aliases never
/// cross a region boundary.
pub open spec fn same_bus_region(a: int, b: int) -> bool {
    bus_region(a) == bus_region(b)
}

/// A device on the CPU bus: byte-wide reads and writes at 16-bit addresses.
pub trait CpuAddressable {
    fn read(&mut self, address: u16) -> Result<u8, Error>;

    fn write(&mut self, address: u16, data: u8) -> Result<(), Error>;
}

/// The PPU's own 16-bit video address space.
///
/// An implementor exposes a model of the whole space as the sequence of
/// `0x4000` bytes that reads currently return. Reads below `0x4000` always
/// succeed and leave the space unchanged; writes below `0x4000` always
/// succeed, store the byte at the written address, and may echo it to
/// mirror addresses within the same architectural region. Accesses at
/// `0x4000` and above fail with a bus error.
pub trait PpuAddressable: Sized {
    /// The byte each of the `0x4000` mapped addresses currently reads as.
    spec fn bus(&self) -> Seq<u8>;

    /// Well-formedness of the implementor's backing storage.
    spec fn inv(&self) -> bool;

    /// A well-formed bus models all `0x4000` mapped addresses.
    proof fn bus_wf(&self)
        requires
            self.inv(),
        ensures
            self.bus().len() == 0x4000,
    ;

    fn ppu_read8(&mut self, address: u16) -> (r: Result<u8, Error>)
        requires
            old(self).inv(),
        ensures
            final(self).inv(),
            final(self).bus() == old(self).bus(),
            old(self).bus().len() == 0x4000,
            address < 0x4000 ==> r == Ok::<u8, Error>(old(self).bus()[address as int]),
            address >= 0x4000 ==> r == Err::<u8, Error>(Error::BusErrorRead(address)),
    ;

    fn ppu_write8(&mut self, address: u16, data: u8) -> (r: Result<(), Error>)
        requires
            old(self).inv(),
        ensures
            final(self).inv(),
            old(self).bus().len() == 0x4000,
            final(self).bus().len() == 0x4000,
            address >= 0x4000 ==> r == Err::<(), Error>(Error::BusErrorWrite(address))
                && final(self).bus() == old(self).bus(),
            address < 0x4000 ==> {
                &&& r == Ok::<(), Error>(())
                &&& final(self).bus()[address as int] == data
                &&& forall|b: int|
                    0 <= b < 0x4000 && !same_bus_region(address as int, b)
                        ==> final(self).bus()[b] == old(self).bus()[b]
                &&& forall|b: int|
                    0 <= b < 0x4000
                        ==> final(self).bus()[b] == old(self).bus()[b]
                            || final(self).bus()[b] == data
            },
    ;
}

} // verus!
