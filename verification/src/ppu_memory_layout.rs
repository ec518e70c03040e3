//! The multiplexer that routes PPU addresses to cartridge, VRAM or palette.

use vstd::prelude::*;
use crate::addressable::{same_bus_region, Error, PpuAddressable};
use crate::cartridge::Cartridge;
use crate::palette::Palette;
use crate::vram::NesVram;

verus! {

/// The offset of a palette access within the 32 bytes of palette RAM:
/// `0x3F00..0x3F20` maps directly, `0x3F20..0x4000` mirrors every 32 bytes.
pub open spec fn palette_index(address: int) -> int {
    if address < 0x3f20 {
        address - 0x3f00
    } else {
        (address - 0x3f20) % 32
    }
}

/// The PPU bus: pattern tables and nametables on the cartridge (with
/// `0x3000..0x3F00` mirroring `0x2000..0x2F00`), palette RAM on top.
pub struct PpuMemoryLayout<C: Cartridge> {
    pub cartridge: C,
    pub vram: NesVram,
    pub palette: Palette,
}

impl<C: Cartridge> PpuMemoryLayout<C> {
    pub fn new(cartridge: C, vram: NesVram, palette: Palette) -> (r: PpuMemoryLayout<C>)
        ensures
            r.cartridge == cartridge,
            r.vram == vram,
            r.palette == palette,
    {
        PpuMemoryLayout { cartridge, vram, palette }
    }
}

impl<C: Cartridge> PpuAddressable for PpuMemoryLayout<C> {
    open spec fn bus(&self) -> Seq<u8> {
        Seq::new(
            0x4000,
            |a: int|
                if a < 0x2000 {
                    self.cartridge.chr()[a]
                } else if a < 0x3000 {
                    self.vram@[self.cartridge.nt_index(a)]
                } else if a < 0x3f00 {
                    self.vram@[self.cartridge.nt_index(a - 0x1000)]
                } else {
                    self.palette@[palette_index(a)]
                },
        )
    }

    open spec fn inv(&self) -> bool {
        self.cartridge.inv() && self.vram.inv() && self.palette.inv()
    }

    proof fn bus_wf(&self) {
    }

    fn ppu_read8(&mut self, address: u16) -> (r: Result<u8, Error>) {
        proof {
            self.cartridge.model_wf(address as int);
            self.cartridge.model_wf(address - 0x1000);
        }
        if address < 0x3000 {
            let r = self.cartridge.ppu_read8(address, &mut self.vram);
            proof {
                assert(self.bus() =~= old(self).bus());
            }
            r
        } else if address < 0x3f00 {
            let r = self.cartridge.ppu_read8(address - 0x1000, &mut self.vram);
            proof {
                assert(self.bus() =~= old(self).bus());
            }
            r
        } else if address < 0x3f20 {
            Ok(self.palette.read(address - 0x3f00))
        } else if address < 0x4000 {
            Ok(self.palette.read((address - 0x3f20) % 32))
        } else {
            Err(Error::BusErrorRead(address))
        }
    }

    fn ppu_write8(&mut self, address: u16, data: u8) -> (r: Result<(), Error>) {
        if address < 0x3000 {
            let r = self.cartridge.ppu_write8(address, data, &mut self.vram);
            proof {
                lemma_write_routed::<C>(*old(self), *self, address as int, data);
            }
            r
        } else if address < 0x3f00 {
            let r = self.cartridge.ppu_write8(address - 0x1000, data, &mut self.vram);
            proof {
                lemma_write_routed::<C>(*old(self), *self, address - 0x1000, data);
            }
            r
        } else if address < 0x4000 {
            let offset = if address < 0x3f20 {
                address - 0x3f00
            } else {
                (address - 0x3f20) % 32
            };
            self.palette.write(offset, data);
            proof {
                assert(offset == palette_index(address as int));
                assert forall|b: int| 0 <= b < 0x4000 implies #[trigger] self.bus()[b] == (
                    if same_bus_region(address as int, b) {
                        self.bus()[b]
                    } else {
                        old(self).bus()[b]
                    }
                ) && (self.bus()[b] == old(self).bus()[b] || self.bus()[b] == data) by {
                    if b < 0x3f00 {
                        self.cartridge.model_wf(b);
                        self.cartridge.model_wf(b - 0x1000);
                    }
                }
                assert(self.bus()[address as int] == data);
            }
            Ok(())
        } else {
            proof {
                assert(self.bus() =~= old(self).bus());
            }
            Err(Error::BusErrorWrite(address))
        }
    }
}

/// After a cartridge write at routed address `t` (either a CHR byte or a
/// nametable byte), the whole bus changes only within `t`'s architectural
/// region, and only to the written byte.
proof fn lemma_write_routed<C: Cartridge>(
    pre: PpuMemoryLayout<C>,
    post: PpuMemoryLayout<C>,
    t: int,
    data: u8,
)
    requires
        pre.inv(),
        post.inv(),
        0 <= t < 0x3000,
        forall|a: int| post.cartridge.nt_index(a) == pre.cartridge.nt_index(a),
        t < 0x2000 ==> post.cartridge.chr() == pre.cartridge.chr().update(t, data)
            && post.vram@ == pre.vram@,
        t >= 0x2000 ==> post.cartridge.chr() == pre.cartridge.chr() && post.vram@ == pre.vram@
            .update(pre.cartridge.nt_index(t), data),
        post.palette@ == pre.palette@,
    ensures
        post.bus().len() == 0x4000,
        pre.bus().len() == 0x4000,
        post.bus()[t] == data,
        forall|b: int|
            0 <= b < 0x4000 && !same_bus_region(t, b) ==> post.bus()[b] == pre.bus()[b],
        forall|b: int|
            0 <= b < 0x4000 ==> post.bus()[b] == pre.bus()[b] || post.bus()[b] == data,
{
    pre.cartridge.model_wf(t);
    assert forall|b: int| 0 <= b < 0x4000 && !same_bus_region(t, b) implies #[trigger] post.bus()[b]
        == pre.bus()[b] by {
        pre.cartridge.model_wf(b);
        pre.cartridge.model_wf(b - 0x1000);
        pre.cartridge.model_wf(t);
    }
    assert forall|b: int| 0 <= b < 0x4000 implies #[trigger] post.bus()[b] == pre.bus()[b]
        || post.bus()[b] == data by {
        pre.cartridge.model_wf(b);
        pre.cartridge.model_wf(b - 0x1000);
        pre.cartridge.model_wf(t);
    }
}

} // verus!
