//! The cartridge side of the PPU bus: pattern tables and nametable routing.

use vstd::prelude::*;
use crate::addressable::Error;
use crate::vram::NesVram;

verus! {

/// How the four logical nametables fold into the console's 2KB of VRAM.
#[derive(Clone, Copy, Debug, PartialEq, Eq, Structural)]
pub enum Mirroring {
    /// `0x2000`/`0x2400` share the first bank, `0x2800`/`0x2C00` the second.
    Horizontal,
    /// `0x2000`/`0x2800` share the first bank, `0x2400`/`0x2C00` the second.
    Vertical,
}

/// The VRAM index a logical nametable address (`0x2000..0x3000`) lands on
/// under the given mirroring policy.
pub open spec fn mirror_index(m: Mirroring, address: int) -> int {
    let off = address - 0x2000;
    match m {
        Mirroring::Horizontal => off % 0x400 + if off >= 0x800 {
            0x400int
        } else {
            0int
        },
        Mirroring::Vertical => off % 0x800,
    }
}

/// A cartridge on the PPU bus.
///
/// It owns the pattern tables (8KB of CHR at `0x0000..0x2000`) and routes
/// nametable accesses (`0x2000..0x3000`) into the console VRAM handed to
/// each call, applying its mirroring policy. The model is the CHR contents
/// plus the routing function itself; the routing is fixed for the life of
/// the cartridge.
pub trait Cartridge: Sized {
    /// The 8KB of pattern table bytes.
    spec fn chr(&self) -> Seq<u8>;

    /// The VRAM index a logical nametable address lands on.
    spec fn nt_index(&self, address: int) -> int;

    /// Well-formedness of the cartridge's backing storage.
    spec fn inv(&self) -> bool;

    /// The model is sized to the bus: 8KB of CHR, and every nametable
    /// address routed into the 2KB of VRAM.
    proof fn model_wf(&self, address: int)
        requires
            self.inv(),
        ensures
            self.chr().len() == 0x2000,
            0x2000 <= address < 0x3000 ==> 0 <= self.nt_index(address) < 0x800,
    ;

    fn ppu_read8(&mut self, address: u16, vram: &mut NesVram) -> (r: Result<u8, Error>)
        requires
            old(self).inv(),
            old(vram).inv(),
            address < 0x3000,
        ensures
            *final(self) == *old(self),
            *final(vram) == *old(vram),
            address < 0x2000 ==> r == Ok::<u8, Error>(old(self).chr()[address as int]),
            address >= 0x2000 ==> r == Ok::<u8, Error>(
                old(vram)@[old(self).nt_index(address as int)],
            ),
    ;

    fn ppu_write8(&mut self, address: u16, data: u8, vram: &mut NesVram) -> (r: Result<
        (),
        Error,
    >)
        requires
            old(self).inv(),
            old(vram).inv(),
            address < 0x3000,
        ensures
            final(self).inv(),
            final(vram).inv(),
            r == Ok::<(), Error>(()),
            forall|a: int| final(self).nt_index(a) == old(self).nt_index(a),
            address < 0x2000 ==> final(self).chr() == old(self).chr().update(
                address as int,
                data,
            ) && *final(vram) == *old(vram),
            address >= 0x2000 ==> final(self).chr() == old(self).chr() && final(vram)@ == old(
                vram,
            )@.update(old(self).nt_index(address as int), data),
    ;
}

/// A cartridge with 8KB of writable CHR RAM and a fixed mirroring policy,
/// enough to exercise the whole PPU core.
pub struct ChrRamCartridge {
    chr: Vec<u8>,
    mirroring: Mirroring,
}

impl ChrRamCartridge {
    /// A cartridge with zeroed CHR RAM.
    pub fn new(mirroring: Mirroring) -> (r: ChrRamCartridge)
        ensures
            r.inv(),
            r.chr() == Seq::new(0x2000, |i: int| 0u8),
            forall|a: int| r.nt_index(a) == mirror_index(mirroring, a),
    {
        let chr = vec![0u8; 0x2000];
        let r = ChrRamCartridge { chr, mirroring };
        proof {
            assert(r.chr() =~= Seq::new(0x2000, |i: int| 0u8));
        }
        r
    }
}

impl Cartridge for ChrRamCartridge {
    closed spec fn chr(&self) -> Seq<u8> {
        self.chr@
    }

    closed spec fn nt_index(&self, address: int) -> int {
        mirror_index(self.mirroring, address)
    }

    closed spec fn inv(&self) -> bool {
        self.chr@.len() == 0x2000
    }

    proof fn model_wf(&self, address: int) {
    }

    fn ppu_read8(&mut self, address: u16, vram: &mut NesVram) -> (r: Result<u8, Error>) {
        if address < 0x2000 {
            Ok(self.chr[address as usize])
        } else {
            let off = address - 0x2000;
            let index: u16 = match self.mirroring {
                Mirroring::Horizontal => off % 0x400 + if off >= 0x800 {
                    0x400
                } else {
                    0
                },
                Mirroring::Vertical => off % 0x800,
            };
            Ok(vram.read(index))
        }
    }

    fn ppu_write8(&mut self, address: u16, data: u8, vram: &mut NesVram) -> (r: Result<
        (),
        Error,
    >) {
        if address < 0x2000 {
            self.chr[address as usize] = data;
        } else {
            let off = address - 0x2000;
            let index: u16 = match self.mirroring {
                Mirroring::Horizontal => off % 0x400 + if off >= 0x800 {
                    0x400
                } else {
                    0
                },
                Mirroring::Vertical => off % 0x800,
            };
            vram.write(index, data);
        }
        Ok(())
    }
}

} // verus!
