//! The 32 bytes of palette RAM.

use vstd::prelude::*;

verus! {

/// Palette RAM: 32 bytes of 6-bit colour indices into the fixed system
/// palette. The frontend owns the index-to-RGB lookup.
pub struct Palette {
    mem: Vec<u8>,
}

impl View for Palette {
    type V = Seq<u8>;

    closed spec fn view(&self) -> Seq<u8> {
        self.mem@
    }
}

impl Palette {
    /// The backing storage holds exactly 32 bytes.
    pub open spec fn inv(&self) -> bool {
        self@.len() == 32
    }

    /// A zero-initialized palette.
    pub fn new() -> (r: Palette)
        ensures
            r.inv(),
            r@ == Seq::new(32, |i: int| 0u8),
    {
        let mem = vec![0u8; 32];
        let r = Palette { mem };
        proof {
            assert(r@ =~= Seq::new(32, |i: int| 0u8));
        }
        r
    }

    pub fn read(&self, offset: u16) -> (r: u8)
        requires
            self.inv(),
            offset < 32,
        ensures
            r == self@[offset as int],
    {
        self.mem[offset as usize]
    }

    pub fn write(&mut self, offset: u16, data: u8)
        requires
            old(self).inv(),
            offset < 32,
        ensures
            final(self).inv(),
            final(self)@ == old(self)@.update(offset as int, data),
    {
        self.mem[offset as usize] = data;
    }
}

} // verus!
