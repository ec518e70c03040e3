use nes_ppu::addressable::PpuAddressable;
use nes_ppu::cartridge::{ChrRamCartridge, Mirroring};
use nes_ppu::frame::FrameBuffer;
use nes_ppu::interrupt::InterruptState;
use nes_ppu::palette::Palette;
use nes_ppu::ppu::Ppu;
use nes_ppu::ppu_memory_layout::PpuMemoryLayout;
use nes_ppu::vram::NesVram;

fn make_memory() -> PpuMemoryLayout<ChrRamCartridge> {
    PpuMemoryLayout::new(
        ChrRamCartridge::new(Mirroring::Vertical),
        NesVram::new(),
        Palette::new(),
    )
}

#[test]
fn blank_frame_is_universal_background() {
    let mut ppu = Ppu::new();
    let mut mem = make_memory();
    mem.ppu_write8(0x3f00, 0x0f).unwrap();
    let mut frame = FrameBuffer::new();
    ppu.render(&mut frame, &mut mem).unwrap();
    for y in 0..240 {
        for x in 0..256 {
            assert_eq!(frame.get_pixel(x, y), 0x0f);
        }
    }
}

#[test]
fn single_background_tile() {
    let mut ppu = Ppu::new();
    let mut mem = make_memory();
    mem.ppu_write8(0x3f00, 0x0f).unwrap(); // universal background
    mem.ppu_write8(0x3f01, 0x20).unwrap(); // palette 0, index 1
    mem.ppu_write8(0x0010, 0xff).unwrap(); // tile 1, low plane, row 0
    mem.ppu_write8(0x2000, 1).unwrap(); // top-left nametable entry
    mem.ppu_write8(0x23c0, 0).unwrap(); // attribute cell 0
    let mut frame = FrameBuffer::new();
    ppu.render(&mut frame, &mut mem).unwrap();
    for x in 0..8 {
        assert_eq!(frame.get_pixel(x, 0), 0x20);
    }
    assert_eq!(frame.get_pixel(0, 1), 0x0f);
    assert_eq!(frame.get_pixel(8, 0), 0x0f);
}

#[test]
fn scroll_by_one_tile_in_x() {
    let mut ppu = Ppu::new();
    let mut mem = make_memory();
    mem.ppu_write8(0x3f00, 0x0f).unwrap();
    mem.ppu_write8(0x3f01, 0x20).unwrap();
    mem.ppu_write8(0x0010, 0xff).unwrap(); // tile 1 has an opaque top row
    mem.ppu_write8(0x2000, 2).unwrap(); // tile column 0: empty tile 2
    mem.ppu_write8(0x2001, 1).unwrap(); // tile column 1: tile 1
    ppu.write8(5, 8, &mut mem).unwrap();
    ppu.write8(5, 0, &mut mem).unwrap();
    let mut frame = FrameBuffer::new();
    ppu.render(&mut frame, &mut mem).unwrap();
    // the window starts one tile in: column 1 of the nametable is leftmost
    for x in 0..8 {
        assert_eq!(frame.get_pixel(x, 0), 0x20);
    }
    assert_eq!(frame.get_pixel(8, 0), 0x0f);
}

#[test]
fn addr_data_round_trip() {
    let mut ppu = Ppu::new();
    let mut mem = make_memory();
    ppu.write8(6, 0x20, &mut mem).unwrap();
    ppu.write8(6, 0x00, &mut mem).unwrap();
    ppu.write8(7, 0xab, &mut mem).unwrap();
    ppu.write8(7, 0xcd, &mut mem).unwrap();
    assert_eq!(mem.ppu_read8(0x2000).unwrap(), 0xab);
    assert_eq!(mem.ppu_read8(0x2001).unwrap(), 0xcd);
    ppu.write8(6, 0x20, &mut mem).unwrap();
    ppu.write8(6, 0x00, &mut mem).unwrap();
    let _prime = ppu.read8(7, &mut mem).unwrap();
    assert_eq!(ppu.read8(7, &mut mem).unwrap(), 0xab);
    assert_eq!(ppu.read8(7, &mut mem).unwrap(), 0xcd);
}

#[test]
fn vblank_nmi_raises_line_and_sets_flag() {
    let mut ppu = Ppu::new();
    let mut mem = make_memory();
    ppu.write8(0, 0x80, &mut mem).unwrap();
    let ints = InterruptState::new();
    assert!(!ints.nmi);
    let out = ppu.vblank_start(ints);
    assert!(out.nmi);
    let first = ppu.read8(2, &mut mem).unwrap();
    assert_eq!(first & 0x80, 0x80);
    let second = ppu.read8(2, &mut mem).unwrap();
    assert_eq!(second & 0x80, 0);
}

#[test]
fn sprite_0_hit_set_and_cleared() {
    let mut ppu = Ppu::new();
    let mut mem = make_memory();
    mem.ppu_write8(0x3f00, 0x0f).unwrap();
    mem.ppu_write8(0x3f11, 0x25).unwrap(); // sprite palette 0, index 1
    mem.ppu_write8(0x0010, 0xff).unwrap(); // tile 1, low plane, row 0
    ppu.set_oam_address(0);
    ppu.oam_data_write(0); // Y: visible
    ppu.oam_data_write(1); // tile 1
    ppu.oam_data_write(0); // attributes: palette 0, no flips
    ppu.oam_data_write(0); // X
    let mut frame = FrameBuffer::new();
    ppu.render(&mut frame, &mut mem).unwrap();
    assert_eq!(frame.get_pixel(7, 0), 0x25);
    assert_eq!(ppu.registers.status & 0x40, 0x40);

    // the same scene with sprite 0 pushed off screen leaves the flag clear
    let mut ppu2 = Ppu::new();
    ppu2.set_oam_address(0);
    ppu2.oam_data_write(0xef); // Y: invisible
    ppu2.oam_data_write(1);
    ppu2.oam_data_write(0);
    ppu2.oam_data_write(0);
    let mut frame2 = FrameBuffer::new();
    ppu2.render(&mut frame2, &mut mem).unwrap();
    assert_eq!(ppu2.registers.status & 0x40, 0);
    assert_eq!(frame2.get_pixel(7, 0), 0x0f);
}

#[test]
fn render_end_clears_sprite_0_hit() {
    let mut ppu = Ppu::new();
    let mut mem = make_memory();
    mem.ppu_write8(0x0010, 0xff).unwrap();
    ppu.set_oam_address(0);
    ppu.oam_data_write(0);
    ppu.oam_data_write(1);
    ppu.oam_data_write(0);
    ppu.oam_data_write(0);
    let mut frame = FrameBuffer::new();
    ppu.render(&mut frame, &mut mem).unwrap();
    assert_eq!(ppu.registers.status & 0x40, 0x40);
    ppu.render_end();
    assert_eq!(ppu.registers.status & 0x40, 0);
}

#[test]
fn background_pattern_base_flip_switches_tables() {
    let mut mem = make_memory();
    mem.ppu_write8(0x3f00, 0x0f).unwrap();
    mem.ppu_write8(0x3f01, 0x20).unwrap();
    // tile 1 of table 0 is opaque on row 0; tile 1 of table 1 on row 1
    mem.ppu_write8(0x0010, 0xff).unwrap();
    mem.ppu_write8(0x1011, 0xff).unwrap();
    mem.ppu_write8(0x2000, 1).unwrap();

    let mut ppu = Ppu::new();
    let mut frame = FrameBuffer::new();
    ppu.render(&mut frame, &mut mem).unwrap();
    assert_eq!(frame.get_pixel(0, 0), 0x20);
    assert_eq!(frame.get_pixel(0, 1), 0x0f);

    let mut ppu2 = Ppu::new();
    ppu2.write8(0, 0x10, &mut mem).unwrap(); // flip CTRL.BG_PATTERN
    let mut frame2 = FrameBuffer::new();
    ppu2.render(&mut frame2, &mut mem).unwrap();
    assert_eq!(frame2.get_pixel(0, 0), 0x0f);
    assert_eq!(frame2.get_pixel(0, 1), 0x20);
}

#[test]
fn last_home_nametable_byte_drives_bottom_right_tile() {
    let mut ppu = Ppu::new();
    let mut mem = make_memory();
    mem.ppu_write8(0x3f00, 0x0f).unwrap();
    mem.ppu_write8(0x3f01, 0x20).unwrap();
    mem.ppu_write8(0x0010, 0xff).unwrap();
    mem.ppu_write8(0x23bf, 1).unwrap(); // nametable entry for tile (31, 29)
    let mut frame = FrameBuffer::new();
    ppu.render(&mut frame, &mut mem).unwrap();
    for x in 248..256 {
        assert_eq!(frame.get_pixel(x, 232), 0x20);
    }
    assert_eq!(frame.get_pixel(247, 232), 0x0f);
}

#[test]
fn attribute_byte_selects_metatile_palette() {
    let mut ppu = Ppu::new();
    let mut mem = make_memory();
    mem.ppu_write8(0x3f00, 0x0f).unwrap();
    mem.ppu_write8(0x3f01, 0x20).unwrap(); // palette 0, index 1
    mem.ppu_write8(0x3f05, 0x16).unwrap(); // palette 1, index 1
    mem.ppu_write8(0x0010, 0xff).unwrap(); // tile 1, opaque top row
    mem.ppu_write8(0x2000, 1).unwrap(); // tile (0, 0): metatile 0 of cell 0
    mem.ppu_write8(0x2002, 1).unwrap(); // tile (2, 0): metatile 1 of cell 0
    mem.ppu_write8(0x23c0, 0x04).unwrap(); // metatile 1 uses palette 1
    let mut frame = FrameBuffer::new();
    ppu.render(&mut frame, &mut mem).unwrap();
    assert_eq!(frame.get_pixel(0, 0), 0x20);
    assert_eq!(frame.get_pixel(16, 0), 0x16);
}

#[test]
fn sprite_flips_mirror_the_tile() {
    let mut mem = make_memory();
    mem.ppu_write8(0x3f11, 0x25).unwrap();
    // tile 1: only bit 7 of row 0 set, so only the top-left pixel is opaque
    mem.ppu_write8(0x0010, 0x80).unwrap();

    let mut ppu = Ppu::new();
    ppu.set_oam_address(0);
    ppu.oam_data_write(10); // Y
    ppu.oam_data_write(1); // tile
    ppu.oam_data_write(0); // no flips
    ppu.oam_data_write(10); // X
    let mut frame = FrameBuffer::new();
    ppu.render(&mut frame, &mut mem).unwrap();
    assert_eq!(frame.get_pixel(10, 10), 0x25);

    let mut ppu2 = Ppu::new();
    ppu2.set_oam_address(0);
    ppu2.oam_data_write(10);
    ppu2.oam_data_write(1);
    ppu2.oam_data_write(0xc0); // both flips
    ppu2.oam_data_write(10);
    let mut frame2 = FrameBuffer::new();
    ppu2.render(&mut frame2, &mut mem).unwrap();
    assert_eq!(frame2.get_pixel(10, 10), 0);
    assert_eq!(frame2.get_pixel(17, 17), 0x25);
}

#[test]
fn later_sprites_overwrite_earlier_ones() {
    let mut mem = make_memory();
    mem.ppu_write8(0x3f11, 0x21).unwrap(); // sprite palette 0, index 1
    mem.ppu_write8(0x3f15, 0x22).unwrap(); // sprite palette 1, index 1
    mem.ppu_write8(0x0010, 0xff).unwrap();

    let mut ppu = Ppu::new();
    ppu.set_oam_address(0);
    // sprite 0: palette 0 at (0, 0)
    ppu.oam_data_write(0);
    ppu.oam_data_write(1);
    ppu.oam_data_write(0);
    ppu.oam_data_write(0);
    // sprite 1: palette 1 at the same spot
    ppu.oam_data_write(0);
    ppu.oam_data_write(1);
    ppu.oam_data_write(1);
    ppu.oam_data_write(0);
    let mut frame = FrameBuffer::new();
    ppu.render(&mut frame, &mut mem).unwrap();
    assert_eq!(frame.get_pixel(7, 0), 0x22);
    // sprite 0 still drew, so the hit flag is set
    assert_eq!(ppu.registers.status & 0x40, 0x40);
}
