use nes_ppu::addressable::{CpuAddressable, Error, PpuAddressable};
use nes_ppu::cartridge::{ChrRamCartridge, Mirroring};
use nes_ppu::io_ports::NesIoPorts;
use nes_ppu::palette::Palette;
use nes_ppu::ppu_memory_layout::PpuMemoryLayout;
use nes_ppu::vram::NesVram;

fn make_memory(m: Mirroring) -> PpuMemoryLayout<ChrRamCartridge> {
    PpuMemoryLayout::new(ChrRamCartridge::new(m), NesVram::new(), Palette::new())
}

#[test]
fn pattern_table_bytes_round_trip() {
    let mut mem = make_memory(Mirroring::Vertical);
    mem.ppu_write8(0x0000, 0x12).unwrap();
    mem.ppu_write8(0x1fff, 0x34).unwrap();
    assert_eq!(mem.ppu_read8(0x0000).unwrap(), 0x12);
    assert_eq!(mem.ppu_read8(0x1fff).unwrap(), 0x34);
}

#[test]
fn nametable_mirror_region_aliases() {
    let mut mem = make_memory(Mirroring::Vertical);
    mem.ppu_write8(0x2005, 0x77).unwrap();
    assert_eq!(mem.ppu_read8(0x3005).unwrap(), 0x77);
    mem.ppu_write8(0x3e00, 0x66).unwrap();
    assert_eq!(mem.ppu_read8(0x2e00).unwrap(), 0x66);
}

#[test]
fn vertical_mirroring_shares_columns() {
    let mut mem = make_memory(Mirroring::Vertical);
    mem.ppu_write8(0x2000, 0x11).unwrap();
    mem.ppu_write8(0x2400, 0x22).unwrap();
    assert_eq!(mem.ppu_read8(0x2800).unwrap(), 0x11);
    assert_eq!(mem.ppu_read8(0x2c00).unwrap(), 0x22);
}

#[test]
fn horizontal_mirroring_shares_rows() {
    let mut mem = make_memory(Mirroring::Horizontal);
    mem.ppu_write8(0x2000, 0x11).unwrap();
    mem.ppu_write8(0x2800, 0x22).unwrap();
    assert_eq!(mem.ppu_read8(0x2400).unwrap(), 0x11);
    assert_eq!(mem.ppu_read8(0x2c00).unwrap(), 0x22);
}

#[test]
fn palette_mirrors_every_32_bytes() {
    let mut mem = make_memory(Mirroring::Vertical);
    mem.ppu_write8(0x3f00, 0x0f).unwrap();
    mem.ppu_write8(0x3f1f, 0x2a).unwrap();
    assert_eq!(mem.ppu_read8(0x3f20).unwrap(), 0x0f);
    assert_eq!(mem.ppu_read8(0x3fff).unwrap(), 0x2a);
    mem.ppu_write8(0x3fe0, 0x31).unwrap();
    assert_eq!(mem.ppu_read8(0x3f00).unwrap(), 0x31);
}

#[test]
fn unmapped_addresses_are_bus_errors() {
    let mut mem = make_memory(Mirroring::Vertical);
    assert_eq!(mem.ppu_read8(0x4000), Err(Error::BusErrorRead(0x4000)));
    assert_eq!(mem.ppu_write8(0xffff, 0), Err(Error::BusErrorWrite(0xffff)));
}

#[test]
fn io_ports_are_unimplemented() {
    let mut ports = NesIoPorts::new();
    assert_eq!(ports.read(0x4016), Err(Error::UnimplementedRead(0x4016)));
    assert_eq!(ports.write(0x4016, 1), Err(Error::UnimplementedWrite(0x4016)));
}
