//! The console's 2KB of nametable RAM.

use vstd::prelude::*;

verus! {

/// The physical video RAM shared by the four logical nametables; the
/// cartridge's mirroring policy decides which logical addresses land where.
pub struct NesVram {
    mem: Vec<u8>,
}

impl View for NesVram {
    type V = Seq<u8>;

    closed spec fn view(&self) -> Seq<u8> {
        self.mem@
    }
}

impl NesVram {
    /// The backing storage holds exactly 2KB.
    pub open spec fn inv(&self) -> bool {
        self@.len() == 0x800
    }

    /// A zero-initialized VRAM.
    pub fn new() -> (r: NesVram)
        ensures
            r.inv(),
            r@ == Seq::new(0x800, |i: int| 0u8),
    {
        let mem = vec![0u8; 0x800];
        let r = NesVram { mem };
        proof {
            assert(r@ =~= Seq::new(0x800, |i: int| 0u8));
        }
        r
    }

    pub fn read(&self, index: u16) -> (r: u8)
        requires
            self.inv(),
            index < 0x800,
        ensures
            r == self@[index as int],
    {
        self.mem[index as usize]
    }

    pub fn write(&mut self, index: u16, data: u8)
        requires
            old(self).inv(),
            index < 0x800,
        ensures
            final(self).inv(),
            final(self)@ == old(self)@.update(index as int, data),
    {
        self.mem[index as usize] = data;
    }
}

} // verus!
