//! The PPU state machine: register file, internal latches, OAM, and the
//! CPU-visible register protocol.

use vstd::prelude::*;
use crate::addressable::{same_bus_region, Error, PpuAddressable};
use crate::interrupt::InterruptState;

verus! {

/// Which half of the scroll pair the next SCROLL write supplies.
#[derive(Clone, Copy, Debug, PartialEq, Eq, Structural)]
pub enum ScrollAxis {
    X,
    Y,
}

/// Which half of the video address the next ADDR write supplies.
#[derive(Clone, Copy, Debug, PartialEq, Eq, Structural)]
pub enum AddressPhase {
    High,
    Low,
}

/// The CPU-visible register bytes.
pub struct PpuRegisterFile {
    pub controller: u8,
    pub mask: u8,
    pub status: u8,
    pub oam_address: u8,
    pub scroll: u8,
    pub address: u8,
}

impl PpuRegisterFile {
    /// A zeroed register file.
    pub fn new() -> (r: PpuRegisterFile)
        ensures
            r.controller == 0,
            r.mask == 0,
            r.status == 0,
            r.oam_address == 0,
            r.scroll == 0,
            r.address == 0,
    {
        PpuRegisterFile {
            controller: 0,
            mask: 0,
            status: 0,
            oam_address: 0,
            scroll: 0,
            address: 0,
        }
    }
}

/// The abstract PPU state every contract speaks of: the register file
/// flattened together with the internal latches and OAM.
pub ghost struct PpuState {
    pub controller: u8,
    pub mask: u8,
    pub status: u8,
    pub oam_address: u8,
    pub scroll_pending: u8,
    pub address_pending: u8,
    pub scroll_axis: ScrollAxis,
    pub scroll_x: u8,
    pub scroll_y: u8,
    pub address_phase: AddressPhase,
    pub vram_address: u16,
    pub data_latch: u8,
    pub oam: Seq<u8>,
}

impl PpuState {
    /// OAM holds exactly 256 bytes.
    pub open spec fn wf(self) -> bool {
        self.oam.len() == 256
    }
}

/// The state of a freshly constructed PPU: everything zero, toggles at
/// their initial phases.
pub open spec fn initial_state() -> PpuState {
    PpuState {
        controller: 0,
        mask: 0,
        status: 0,
        oam_address: 0,
        scroll_pending: 0,
        address_pending: 0,
        scroll_axis: ScrollAxis::X,
        scroll_x: 0,
        scroll_y: 0,
        address_phase: AddressPhase::High,
        vram_address: 0,
        data_latch: 0,
        oam: Seq::new(256, |i: int| 0u8),
    }
}

/// Every register write first replaces the low five bits of STATUS with the
/// low five bits of the written byte (open-bus simulation).
pub open spec fn status_merged(p: PpuState, data: u8) -> PpuState {
    PpuState { status: (p.status & 0xe0) | (data & 0x1f), ..p }
}

/// The DATA-port address step: 1, or 32 when CTRL bit 2 is set.
pub open spec fn vram_increment(controller: u8) -> u16 {
    if controller & 4 == 0 {
        1
    } else {
        32
    }
}

/// The video address after a DATA access: stepped modulo 2^16.
pub open spec fn vram_stepped(p: PpuState) -> PpuState {
    PpuState {
        vram_address: ((p.vram_address + vram_increment(p.controller)) % 0x10000) as u16,
        ..p
    }
}

/// The PPU state after a CPU write of `data` at register offset `address`.
/// Offsets 2 (STATUS, illegal) and 8 and above (unimplemented) still merge
/// the low five bits; the DATA offset additionally steps the video address
/// (the store itself goes to the bus and is stated separately).
pub open spec fn reg_written(p: PpuState, address: u16, data: u8) -> PpuState {
    let m = status_merged(p, data);
    if address == 0 {
        PpuState { controller: data, ..m }
    } else if address == 1 {
        PpuState { mask: data, ..m }
    } else if address == 3 {
        PpuState { oam_address: data, ..m }
    } else if address == 4 {
        PpuState {
            oam: m.oam.update(p.oam_address as int, data),
            oam_address: ((p.oam_address + 1) % 256) as u8,
            ..m
        }
    } else if address == 5 {
        match p.scroll_axis {
            ScrollAxis::X => PpuState { scroll_axis: ScrollAxis::Y, scroll_pending: data, ..m },
            ScrollAxis::Y => PpuState {
                scroll_axis: ScrollAxis::X,
                scroll_x: p.scroll_pending,
                scroll_y: data,
                scroll_pending: data,
                ..m
            },
        }
    } else if address == 6 {
        match p.address_phase {
            AddressPhase::High => PpuState {
                address_phase: AddressPhase::Low,
                address_pending: data,
                ..m
            },
            AddressPhase::Low => PpuState {
                address_phase: AddressPhase::High,
                vram_address: (((p.address_pending & 0x3f) as u16) << 8) | (data as u16),
                address_pending: data,
                ..m
            },
        }
    } else if address == 7 {
        vram_stepped(m)
    } else {
        m
    }
}

/// The result a CPU write returns, by register offset and current state.
pub open spec fn write_outcome(p: PpuState, address: u16) -> Result<(), Error> {
    if address == 2 {
        Err(Error::IllegalWrite(address))
    } else if address > 7 {
        Err(Error::UnimplementedWrite(address))
    } else if address == 7 && p.vram_address >= 0x4000 {
        Err(Error::BusErrorWrite(p.vram_address))
    } else {
        Ok(())
    }
}

/// The state after a STATUS read: vblank cleared, both write toggles back
/// at their initial phases.
pub open spec fn status_read_state(p: PpuState) -> PpuState {
    PpuState {
        status: p.status & 0x7f,
        scroll_axis: ScrollAxis::X,
        address_phase: AddressPhase::High,
        ..p
    }
}

/// The state after a DATA read: the latch refilled from the bus at the
/// current video address, then the address stepped.
pub open spec fn data_read_state(p: PpuState, bus: Seq<u8>) -> PpuState {
    vram_stepped(PpuState { data_latch: bus[p.vram_address as int], ..p })
}

/// `((s & 0xe0) | (d & 0x1f))` keeps the high three bits of `s` and takes
/// the low five bits of `d`.
proof fn lemma_status_merge_bits(s: u8, d: u8)
    ensures
        ((s & 0xe0) | (d & 0x1f)) & 0x1f == d & 0x1f,
        ((s & 0xe0) | (d & 0x1f)) & 0xe0 == s & 0xe0,
{
    assert(((s & 0xe0) | (d & 0x1f)) & 0x1f == d & 0x1f) by (bit_vector);
    assert(((s & 0xe0) | (d & 0x1f)) & 0xe0 == s & 0xe0) by (bit_vector);
}

/// Two consecutive SCROLL writes of `(a, b)`, starting from the X phase,
/// commit `(scroll_x, scroll_y) = (a, b)` and leave the toggle back at X.
/// The intermediate state exposes neither byte: the committed pair changes
/// only on the second write.
pub proof fn lemma_scroll_write_pair(p: PpuState, a: u8, b: u8)
    requires
        p.scroll_axis == ScrollAxis::X,
    ensures
        ({
            let q = reg_written(reg_written(p, 5, a), 5, b);
            &&& q.scroll_x == a
            &&& q.scroll_y == b
            &&& q.scroll_axis == ScrollAxis::X
        }),
        reg_written(p, 5, a).scroll_x == p.scroll_x,
        reg_written(p, 5, a).scroll_y == p.scroll_y,
{
}

/// Two consecutive ADDR writes of `(h, l)`, starting from the high phase,
/// commit the 14-bit video address `((h & 0x3F) << 8) | l` and leave the
/// toggle back at the high phase.
pub proof fn lemma_addr_write_pair(p: PpuState, h: u8, l: u8)
    requires
        p.address_phase == AddressPhase::High,
    ensures
        ({
            let q = reg_written(reg_written(p, 6, h), 6, l);
            &&& q.vram_address == (((h & 0x3f) as u16) << 8) | (l as u16)
            &&& q.vram_address < 0x4000
            &&& q.address_phase == AddressPhase::High
        }),
{
    assert((((h & 0x3f) as u16) << 8) | (l as u16) < 0x4000) by (bit_vector);
}

/// Reading STATUS twice in succession: the first read returns the current
/// flags, the second returns the same flags with only the vblank bit
/// cleared.
pub proof fn lemma_status_read_pair(p: PpuState)
    ensures
        status_read_state(p).status & 0x7f == p.status & 0x7f,
        status_read_state(p).status & 0x80 == 0,
        status_read_state(status_read_state(p)).status == status_read_state(p).status,
{
    let s = p.status;
    assert((s & 0x7f) & 0x7f == s & 0x7f) by (bit_vector);
    assert((s & 0x7f) & 0x80 == 0) by (bit_vector);
}

/// Whatever their phase, two SCROLL writes return the scroll toggle to it,
/// and two ADDR writes return the address toggle to it.
pub proof fn lemma_toggles_idempotent_mod_2(p: PpuState, a: u8, b: u8)
    ensures
        reg_written(reg_written(p, 5, a), 5, b).scroll_axis == p.scroll_axis,
        reg_written(reg_written(p, 6, a), 6, b).address_phase == p.address_phase,
{
}

/// The PPU state after streaming the bytes of `ds`, in order, through
/// OAM_DATA writes.
pub open spec fn oam_stream_written(p: PpuState, ds: Seq<u8>) -> PpuState
    decreases ds.len(),
{
    if ds.len() == 0 {
        p
    } else {
        reg_written(oam_stream_written(p, ds.drop_last()), 4, ds.last())
    }
}

/// `N` OAM_DATA writes advance the OAM address by exactly `N` modulo 256,
/// whatever the starting value.
pub proof fn lemma_oam_stream_advances(p: PpuState, ds: Seq<u8>)
    requires
        p.wf(),
    ensures
        oam_stream_written(p, ds).wf(),
        oam_stream_written(p, ds).oam_address == ((p.oam_address + ds.len()) % 256) as u8,
    decreases ds.len(),
{
    if ds.len() > 0 {
        lemma_oam_stream_advances(p, ds.drop_last());
    }
}

/// Streaming bytes through OAM_DATA fills OAM in order from the starting
/// address and touches nothing else in OAM.
pub proof fn lemma_oam_stream_fills(p: PpuState, ds: Seq<u8>)
    requires
        p.wf(),
        p.oam_address + ds.len() <= 256,
    ensures
        oam_stream_written(p, ds).wf(),
        oam_stream_written(p, ds).oam_address == ((p.oam_address + ds.len()) % 256) as u8,
        forall|i: int|
            p.oam_address <= i < p.oam_address + ds.len() ==> oam_stream_written(p, ds).oam[i]
                == ds[i - p.oam_address],
        forall|i: int|
            0 <= i < 256 && !(p.oam_address <= i < p.oam_address + ds.len())
                ==> oam_stream_written(p, ds).oam[i] == p.oam[i],
    decreases ds.len(),
{
    if ds.len() > 0 {
        lemma_oam_stream_fills(p, ds.drop_last());
    }
}

/// OAM round trip: writing 256 bytes through OAM_DATA starting from OAM
/// address 0 stores them in order, so reading OAM back by direct indexing
/// reproduces the whole sequence.
pub proof fn lemma_oam_stream_round_trip(p: PpuState, ds: Seq<u8>)
    requires
        p.wf(),
        p.oam_address == 0,
        ds.len() == 256,
    ensures
        forall|i: int| 0 <= i < 256 ==> oam_stream_written(p, ds).oam[i] == ds[i],
{
    lemma_oam_stream_fills(p, ds);
}

/// Consecutive DATA reads stream the bus. With the video address at `A`,
/// the first read hands back the stale latch and leaves the bus byte at
/// `A` in the latch; the second read therefore returns the bus byte at
/// `A`, and leaves the byte at `A + inc` in the latch for the third.
pub proof fn lemma_data_read_stream(p: PpuState, bus: Seq<u8>)
    requires
        bus.len() == 0x4000,
        p.vram_address + 2 * vram_increment(p.controller) < 0x4000,
    ensures
        ({
            let q1 = data_read_state(p, bus);
            let q2 = data_read_state(q1, bus);
            &&& q1.data_latch == bus[p.vram_address as int]
            &&& q2.data_latch == bus[p.vram_address + vram_increment(p.controller)]
        }),
{
}

/// The PPU: the register file plus the write-order toggles, the committed
/// scroll pair, the committed video address, OAM, and the DATA read latch.
pub struct Ppu {
    pub registers: PpuRegisterFile,
    pub scroll_axis: ScrollAxis,
    pub scroll_x: u8,
    pub scroll_y: u8,
    pub address_phase: AddressPhase,
    pub address: u16,
    pub oam: Vec<u8>,
    pub data_latch: u8,
}

impl View for Ppu {
    type V = PpuState;

    open spec fn view(&self) -> PpuState {
        PpuState {
            controller: self.registers.controller,
            mask: self.registers.mask,
            status: self.registers.status,
            oam_address: self.registers.oam_address,
            scroll_pending: self.registers.scroll,
            address_pending: self.registers.address,
            scroll_axis: self.scroll_axis,
            scroll_x: self.scroll_x,
            scroll_y: self.scroll_y,
            address_phase: self.address_phase,
            vram_address: self.address,
            data_latch: self.data_latch,
            oam: self.oam@,
        }
    }
}

impl Ppu {
    /// A freshly constructed, zero-initialized PPU.
    pub fn new() -> (r: Ppu)
        ensures
            r@ == initial_state(),
            r@.wf(),
    {
        let r = Ppu {
            registers: PpuRegisterFile::new(),
            scroll_axis: ScrollAxis::X,
            scroll_x: 0,
            scroll_y: 0,
            address_phase: AddressPhase::High,
            address: 0,
            oam: vec![0u8; 256],
            data_latch: 0,
        };
        proof {
            assert(r@.oam =~= initial_state().oam);
        }
        r
    }

    /// Enter vblank: set STATUS bit 7 and, when CTRL bit 7 enables it,
    /// raise the NMI line.
    pub fn vblank_start(&mut self, interrupts: InterruptState) -> (r: InterruptState)
        ensures
            final(self)@ == (PpuState { status: old(self)@.status | 0x80, ..old(self)@ }),
            r.nmi == (interrupts.nmi || old(self)@.controller & 0x80 != 0),
    {
        self.registers.status = self.registers.status | 0x80;
        let mut out = interrupts;
        if self.registers.controller & 0x80 != 0 {
            out.nmi = true;
        }
        out
    }

    /// Leave vblank: clear STATUS bit 7; the interrupt lines pass through.
    pub fn vblank_end(&mut self, interrupts: InterruptState) -> (r: InterruptState)
        ensures
            final(self)@ == (PpuState { status: old(self)@.status & 0x7f, ..old(self)@ }),
            r == interrupts,
    {
        self.registers.status = self.registers.status & 0x7f;
        interrupts
    }

    /// Prepare for the next frame: clear the sprite-0-hit flag.
    pub fn render_end(&mut self)
        ensures
            final(self)@ == (PpuState { status: old(self)@.status & 0xbf, ..old(self)@ }),
    {
        self.registers.status = self.registers.status & 0xbf;
    }

    /// Store a fresh OAM address.
    pub fn set_oam_address(&mut self, address: u8)
        ensures
            final(self)@ == (PpuState { oam_address: address, ..old(self)@ }),
    {
        self.registers.oam_address = address;
    }

    /// Store one OAM byte at the current OAM address, then advance the
    /// address modulo 256.
    pub fn oam_data_write(&mut self, data: u8)
        requires
            old(self)@.wf(),
        ensures
            final(self)@.wf(),
            final(self)@ == (PpuState {
                oam: old(self)@.oam.update(old(self)@.oam_address as int, data),
                oam_address: ((old(self)@.oam_address + 1) % 256) as u8,
                ..old(self)@
            }),
    {
        self.oam[self.registers.oam_address as usize] = data;
        self.registers.oam_address = self.registers.oam_address.wrapping_add(1);
    }

    /// Step the video address by the CTRL-selected increment, modulo 2^16.
    fn increment_address(&mut self)
        ensures
            final(self)@ == vram_stepped(old(self)@),
    {
        if self.registers.controller & 4 != 0 {
            self.address = self.address.wrapping_add(32);
        } else {
            self.address = self.address.wrapping_add(1);
        }
    }

    /// A CPU read at register offset `address`.
    ///
    /// STATUS returns the current flags, then clears vblank and resets the
    /// scroll and address toggles. OAM_DATA returns the byte under the OAM
    /// address without advancing it. DATA returns the stale latch, refills
    /// the latch from the bus at the current video address, and steps the
    /// address. Every other offset is an illegal or unimplemented read and
    /// leaves the PPU untouched.
    pub fn read8<M: PpuAddressable>(&mut self, address: u16, memory: &mut M) -> (r: Result<
        u8,
        Error,
    >)
        requires
            old(self)@.wf(),
            old(memory).inv(),
        ensures
            final(self)@.wf(),
            final(memory).inv(),
            final(memory).bus() == old(memory).bus(),
            address == 2 ==> r == Ok::<u8, Error>(old(self)@.status) && final(self)@
                == status_read_state(old(self)@),
            address == 4 ==> r == Ok::<u8, Error>(old(self)@.oam[old(self)@.oam_address as int])
                && final(self)@ == old(self)@,
            address == 7 && old(self)@.vram_address < 0x4000 ==> r == Ok::<u8, Error>(
                old(self)@.data_latch,
            ) && final(self)@ == data_read_state(old(self)@, old(memory).bus()),
            address == 7 && old(self)@.vram_address >= 0x4000 ==> r == Err::<u8, Error>(
                Error::BusErrorRead(old(self)@.vram_address),
            ) && final(self)@ == old(self)@,
            address == 0 || address == 1 || address == 3 || address == 5 || address == 6 ==> r
                == Err::<u8, Error>(Error::IllegalRead(address)) && final(self)@ == old(self)@,
            address > 7 ==> r == Err::<u8, Error>(Error::UnimplementedRead(address)) && final(self)@ == old(self)@,
    {
        match address {
            2 => {
                let value = self.registers.status;
                self.registers.status = self.registers.status & 0x7f;
                self.scroll_axis = ScrollAxis::X;
                self.address_phase = AddressPhase::High;
                Ok(value)
            },
            4 => Ok(self.oam[self.registers.oam_address as usize]),
            7 => {
                let stale = self.data_latch;
                match memory.ppu_read8(self.address) {
                    Ok(fresh) => {
                        self.data_latch = fresh;
                    },
                    Err(e) => {
                        return Err(e);
                    },
                }
                self.increment_address();
                Ok(stale)
            },
            0 | 1 | 3 | 5 | 6 => Err(Error::IllegalRead(address)),
            _ => Err(Error::UnimplementedRead(address)),
        }
    }

    /// A CPU write of `data` at register offset `address`.
    ///
    /// The low five bits of `data` are merged into STATUS first, whatever
    /// the offset. CTRL, MASK and OAM_ADDR store the byte; OAM_DATA stores
    /// and advances; SCROLL and ADDR run their two-write protocols,
    /// committing the pair on the second write; DATA stores through the bus
    /// at the current video address and steps it. Writing STATUS is
    /// illegal, offsets above 7 are unimplemented.
    pub fn write8<M: PpuAddressable>(&mut self, address: u16, data: u8, memory: &mut M) -> (r:
        Result<(), Error>)
        requires
            old(self)@.wf(),
            old(memory).inv(),
        ensures
            final(self)@.wf(),
            final(memory).inv(),
            final(memory).bus().len() == old(memory).bus().len(),
            old(memory).bus().len() == 0x4000,
            r == write_outcome(old(self)@, address),
            final(self)@.status & 0x1f == data & 0x1f,
            address != 7 ==> final(self)@ == reg_written(old(self)@, address, data) && final(memory).bus() == old(memory).bus(),
            address == 7 && old(self)@.vram_address < 0x4000 ==> final(self)@ == reg_written(
                old(self)@,
                7,
                data,
            ) && final(memory).bus()[old(self)@.vram_address as int] == data && (forall|b: int|
                0 <= b < 0x4000 && !same_bus_region(old(self)@.vram_address as int, b) ==> final(memory).bus()[b] == old(memory).bus()[b]) && (forall|b: int|
                0 <= b < 0x4000 ==> final(memory).bus()[b] == old(memory).bus()[b] || final(memory).bus()[b] == data),
            address == 7 && old(self)@.vram_address >= 0x4000 ==> final(self)@ == status_merged(
                old(self)@,
                data,
            ) && final(memory).bus() == old(memory).bus(),
    {
        self.registers.status = (self.registers.status & 0xe0) | (data & 0x1f);
        proof {
            lemma_status_merge_bits(old(self)@.status, data);
            memory.bus_wf();
        }
        match address {
            0 => {
                self.registers.controller = data;
                Ok(())
            },
            1 => {
                self.registers.mask = data;
                Ok(())
            },
            2 => Err(Error::IllegalWrite(address)),
            3 => {
                self.set_oam_address(data);
                Ok(())
            },
            4 => {
                self.oam_data_write(data);
                Ok(())
            },
            5 => {
                match self.scroll_axis {
                    ScrollAxis::X => {
                        self.scroll_axis = ScrollAxis::Y;
                    },
                    ScrollAxis::Y => {
                        self.scroll_axis = ScrollAxis::X;
                        self.scroll_x = self.registers.scroll;
                        self.scroll_y = data;
                    },
                }
                self.registers.scroll = data;
                Ok(())
            },
            6 => {
                match self.address_phase {
                    AddressPhase::High => {
                        self.address_phase = AddressPhase::Low;
                    },
                    AddressPhase::Low => {
                        self.address_phase = AddressPhase::High;
                        self.address = (((self.registers.address & 0x3f) as u16) << 8) | (
                        data as u16);
                    },
                }
                self.registers.address = data;
                Ok(())
            },
            7 => {
                match memory.ppu_write8(self.address, data) {
                    Ok(()) => {},
                    Err(e) => {
                        return Err(e);
                    },
                }
                self.increment_address();
                Ok(())
            },
            _ => Err(Error::UnimplementedWrite(address)),
        }
    }
}

} // verus!
