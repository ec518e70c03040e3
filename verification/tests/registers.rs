use nes_ppu::addressable::Error;
use nes_ppu::cartridge::{ChrRamCartridge, Mirroring};
use nes_ppu::interrupt::InterruptState;
use nes_ppu::palette::Palette;
use nes_ppu::ppu::{AddressPhase, Ppu, ScrollAxis};
use nes_ppu::ppu_memory_layout::PpuMemoryLayout;
use nes_ppu::vram::NesVram;

fn make_memory() -> PpuMemoryLayout<ChrRamCartridge> {
    PpuMemoryLayout::new(
        ChrRamCartridge::new(Mirroring::Vertical),
        NesVram::new(),
        Palette::new(),
    )
}

#[test]
fn scroll_pair_commits_and_resets_toggle() {
    let mut ppu = Ppu::new();
    let mut mem = make_memory();
    assert!(matches!(ppu.scroll_axis, ScrollAxis::X));
    ppu.write8(5, 0x17, &mut mem).unwrap();
    // the pair is committed only on the second write
    assert_eq!(ppu.scroll_x, 0);
    assert_eq!(ppu.scroll_y, 0);
    assert!(matches!(ppu.scroll_axis, ScrollAxis::Y));
    ppu.write8(5, 0x2a, &mut mem).unwrap();
    assert_eq!(ppu.scroll_x, 0x17);
    assert_eq!(ppu.scroll_y, 0x2a);
    assert!(matches!(ppu.scroll_axis, ScrollAxis::X));
}

#[test]
fn addr_pair_commits_masked_and_resets_toggle() {
    let mut ppu = Ppu::new();
    let mut mem = make_memory();
    assert!(matches!(ppu.address_phase, AddressPhase::High));
    ppu.write8(6, 0xff, &mut mem).unwrap();
    assert!(matches!(ppu.address_phase, AddressPhase::Low));
    ppu.write8(6, 0x34, &mut mem).unwrap();
    assert_eq!(ppu.address, ((0xff & 0x3f) << 8) | 0x34);
    assert!(matches!(ppu.address_phase, AddressPhase::High));
}

#[test]
fn status_read_twice_clears_vblank() {
    let mut ppu = Ppu::new();
    let mut mem = make_memory();
    let ints = ppu.vblank_start(InterruptState::new());
    assert!(!ints.nmi); // CTRL bit 7 is clear
    let first = ppu.read8(2, &mut mem).unwrap();
    assert_eq!(first & 0x80, 0x80);
    let second = ppu.read8(2, &mut mem).unwrap();
    assert_eq!(second, first & 0x7f);
}

#[test]
fn status_read_resets_write_toggles() {
    let mut ppu = Ppu::new();
    let mut mem = make_memory();
    ppu.write8(5, 1, &mut mem).unwrap();
    ppu.write8(6, 2, &mut mem).unwrap();
    assert!(matches!(ppu.scroll_axis, ScrollAxis::Y));
    assert!(matches!(ppu.address_phase, AddressPhase::Low));
    ppu.read8(2, &mut mem).unwrap();
    assert!(matches!(ppu.scroll_axis, ScrollAxis::X));
    assert!(matches!(ppu.address_phase, AddressPhase::High));
}

#[test]
fn oam_writes_advance_address_modulo_256() {
    let mut ppu = Ppu::new();
    let mut mem = make_memory();
    ppu.write8(3, 250, &mut mem).unwrap();
    for k in 0..10u16 {
        ppu.write8(4, k as u8, &mut mem).unwrap();
    }
    assert_eq!(ppu.registers.oam_address, 4); // (250 + 10) mod 256
}

#[test]
fn oam_data_read_does_not_advance() {
    let mut ppu = Ppu::new();
    let mut mem = make_memory();
    ppu.set_oam_address(7);
    ppu.oam_data_write(0x5a);
    ppu.set_oam_address(7);
    assert_eq!(ppu.read8(4, &mut mem).unwrap(), 0x5a);
    assert_eq!(ppu.registers.oam_address, 7);
    assert_eq!(ppu.read8(4, &mut mem).unwrap(), 0x5a);
}

#[test]
fn oam_round_trip_reproduces_sequence() {
    let mut ppu = Ppu::new();
    let mut mem = make_memory();
    ppu.write8(3, 0, &mut mem).unwrap();
    for k in 0..256u16 {
        ppu.write8(4, k as u8, &mut mem).unwrap();
    }
    for k in 0..256usize {
        assert_eq!(ppu.oam[k], k as u8);
    }
}

#[test]
fn data_reads_stream_through_latch() {
    let mut ppu = Ppu::new();
    let mut mem = make_memory();
    // fill two nametable bytes through the DATA port
    ppu.write8(6, 0x20, &mut mem).unwrap();
    ppu.write8(6, 0x00, &mut mem).unwrap();
    ppu.write8(7, 0x11, &mut mem).unwrap();
    ppu.write8(7, 0x22, &mut mem).unwrap();
    // point back at 0x2000 and stream reads
    ppu.write8(6, 0x20, &mut mem).unwrap();
    ppu.write8(6, 0x00, &mut mem).unwrap();
    let stale = ppu.read8(7, &mut mem).unwrap();
    assert_eq!(stale, 0); // the latch starts out zero
    assert_eq!(ppu.read8(7, &mut mem).unwrap(), 0x11);
    assert_eq!(ppu.read8(7, &mut mem).unwrap(), 0x22);
}

#[test]
fn data_increment_by_32_when_ctrl_bit2_set() {
    let mut ppu = Ppu::new();
    let mut mem = make_memory();
    ppu.write8(0, 0x04, &mut mem).unwrap();
    ppu.write8(6, 0x20, &mut mem).unwrap();
    ppu.write8(6, 0x00, &mut mem).unwrap();
    ppu.write8(7, 0xaa, &mut mem).unwrap();
    assert_eq!(ppu.address, 0x2020);
}

#[test]
fn every_write_sets_status_low_five_bits() {
    let mut ppu = Ppu::new();
    let mut mem = make_memory();
    for offset in 0..8u16 {
        let byte = (0xe0 | (offset as u8 * 3)) as u8;
        let _ = ppu.write8(offset, byte, &mut mem);
        assert_eq!(ppu.registers.status & 0x1f, byte & 0x1f);
    }
}

#[test]
fn toggles_idempotent_modulo_two_writes() {
    let mut ppu = Ppu::new();
    let mut mem = make_memory();
    ppu.write8(5, 9, &mut mem).unwrap(); // scroll toggle now at Y
    ppu.write8(6, 9, &mut mem).unwrap(); // address toggle now at Low
    ppu.write8(5, 1, &mut mem).unwrap();
    ppu.write8(5, 2, &mut mem).unwrap();
    assert!(matches!(ppu.scroll_axis, ScrollAxis::Y));
    ppu.write8(6, 1, &mut mem).unwrap();
    ppu.write8(6, 2, &mut mem).unwrap();
    assert!(matches!(ppu.address_phase, AddressPhase::Low));
}

#[test]
fn illegal_and_unimplemented_register_accesses() {
    let mut ppu = Ppu::new();
    let mut mem = make_memory();
    assert_eq!(ppu.read8(0, &mut mem), Err(Error::IllegalRead(0)));
    assert_eq!(ppu.read8(1, &mut mem), Err(Error::IllegalRead(1)));
    assert_eq!(ppu.read8(3, &mut mem), Err(Error::IllegalRead(3)));
    assert_eq!(ppu.read8(5, &mut mem), Err(Error::IllegalRead(5)));
    assert_eq!(ppu.read8(6, &mut mem), Err(Error::IllegalRead(6)));
    assert_eq!(ppu.write8(2, 0x1f, &mut mem), Err(Error::IllegalWrite(2)));
    // the illegal STATUS write still merged the open-bus bits
    assert_eq!(ppu.registers.status & 0x1f, 0x1f);
    assert_eq!(ppu.read8(8, &mut mem), Err(Error::UnimplementedRead(8)));
    assert_eq!(ppu.write8(9, 0, &mut mem), Err(Error::UnimplementedWrite(9)));
}

#[test]
fn data_access_past_mapped_space_is_a_bus_error() {
    let mut ppu = Ppu::new();
    let mut mem = make_memory();
    // commit the top of the palette mirror, then step past 0x3FFF
    ppu.write8(6, 0x3f, &mut mem).unwrap();
    ppu.write8(6, 0xff, &mut mem).unwrap();
    ppu.write8(7, 0x00, &mut mem).unwrap();
    assert_eq!(ppu.address, 0x4000);
    assert_eq!(ppu.write8(7, 0, &mut mem), Err(Error::BusErrorWrite(0x4000)));
    assert_eq!(ppu.read8(7, &mut mem), Err(Error::BusErrorRead(0x4000)));
}

#[test]
fn vblank_end_clears_flag_and_passes_interrupts() {
    let mut ppu = Ppu::new();
    let ints = ppu.vblank_start(InterruptState::new());
    assert_eq!(ppu.registers.status & 0x80, 0x80);
    let out = ppu.vblank_end(ints);
    assert_eq!(ppu.registers.status & 0x80, 0);
    assert_eq!(out, ints);
}
