//! The frame renderer: scrolling tiled background plus 8x8 sprites.
//!
//! The specification layer describes, as functions of the PPU state and of
//! the bus contents, which palette index every tile and sprite pixel
//! carries and which colour byte it resolves to; the executable renderer
//! is proved to fill the frame exactly according to those functions.

use vstd::prelude::*;
use crate::addressable::{Error, PpuAddressable};
use crate::frame::Frame;
use crate::ppu::{Ppu, PpuState};

verus! {

/// The 2-bit palette index a pair of pattern plane bytes gives to pixel
/// column `p` of a tile row; column 0 is the leftmost pixel, held by bit 7.
pub open spec fn plane_pair_index(lo: u8, hi: u8, p: int) -> u8 {
    ((lo >> (7 - p) as u8) & 1) | (((hi >> (7 - p) as u8) & 1) << 1)
}

/// The address of the tile-index byte for local tile `(tx, ty)` of the
/// nametable at `nt_base`.
pub open spec fn nt_byte_addr(nt_base: int, tx: int, ty: int) -> int {
    nt_base + ty * 32 + tx
}

/// The address of the attribute byte covering local tile `(tx, ty)`:
/// one byte per 4x4-tile cell, 8 cells per row, at nametable offset 0x3C0.
pub open spec fn attr_byte_addr(nt_base: int, tx: int, ty: int) -> int {
    nt_base + 0x3c0 + (ty / 4) * 8 + tx / 4
}

/// The bit position of the 2-bit palette selector for tile `(tx, ty)`
/// within its attribute byte: one selector per 2x2-tile metatile.
pub open spec fn metatile_shift(tx: int, ty: int) -> u8 {
    ((((ty / 2) % 2) * 2 + (tx / 2) % 2) * 2) as u8
}

/// The 2-bit palette selector the attribute table assigns to tile
/// `(tx, ty)`.
pub open spec fn tile_attr_bits(bus: Seq<u8>, nt_base: int, tx: int, ty: int) -> u8 {
    (bus[attr_byte_addr(nt_base, tx, ty)] >> metatile_shift(tx, ty)) & 3
}

/// The address of the 16-byte pattern entry for tile `index` in the
/// pattern table at `pt_base`.
pub open spec fn tile_pattern_addr(pt_base: int, index: u8) -> int {
    pt_base + index * 16
}

/// The 2-bit pattern index of pixel `(p, r)` of the background tile at
/// local coordinates `(tx, ty)` in the nametable at `nt_base`; 0 means
/// transparent.
pub open spec fn bg_tile_pixel_index(
    bus: Seq<u8>,
    pt_base: int,
    nt_base: int,
    tx: int,
    ty: int,
    r: int,
    p: int,
) -> u8 {
    let pt = tile_pattern_addr(pt_base, bus[nt_byte_addr(nt_base, tx, ty)]);
    plane_pair_index(bus[pt + r], bus[pt + 8 + r], p)
}

/// The colour byte an opaque background tile pixel resolves to through
/// the background palettes at `0x3F00`.
pub open spec fn bg_tile_pixel_colour(
    bus: Seq<u8>,
    pt_base: int,
    nt_base: int,
    tx: int,
    ty: int,
    r: int,
    p: int,
) -> u8 {
    bus[0x3f00 + tile_attr_bits(bus, nt_base, tx, ty) * 4 + bg_tile_pixel_index(
        bus,
        pt_base,
        nt_base,
        tx,
        ty,
        r,
        p,
    )]
}

/// The pixel column, within the 512-pixel-wide nametable plane, of the
/// left edge of the visible window: scroll plus the CTRL nametable-X bit.
pub open spec fn bg_origin_x(p: PpuState) -> int {
    p.scroll_x + if p.controller & 1 != 0 {
        256int
    } else {
        0int
    }
}

/// The pixel row, within the 480-pixel-tall nametable plane, of the top
/// edge of the visible window: scroll plus the CTRL nametable-Y bit.
pub open spec fn bg_origin_y(p: PpuState) -> int {
    p.scroll_y + if p.controller & 2 != 0 {
        240int
    } else {
        0int
    }
}

/// The background pattern table base selected by CTRL bit 4.
pub open spec fn bg_pattern_base(controller: u8) -> int {
    if controller & 0x10 == 0 {
        0int
    } else {
        0x1000int
    }
}

/// The sprite pattern table base selected by CTRL bit 3.
pub open spec fn sprite_pattern_base(controller: u8) -> int {
    if controller & 8 == 0 {
        0int
    } else {
        0x1000int
    }
}

/// The base address of the nametable holding absolute tile `(ax, ay)` of
/// the 64x60-tile plane: the four nametables sit 2x2.
pub open spec fn quadrant_nt_base(ax: int, ay: int) -> int {
    if ax < 32 {
        if ay < 30 {
            0x2000int
        } else {
            0x2800int
        }
    } else {
        if ay < 30 {
            0x2400int
        } else {
            0x2c00int
        }
    }
}

/// The absolute tile column on the 64x60 plane rendered by loop column
/// `j`, wrapping around the plane.
pub open spec fn bg_abs_col(p: PpuState, j: int) -> int {
    (j + bg_origin_x(p) / 8) % 64
}

/// The absolute tile row on the 64x60 plane rendered by loop row `i`,
/// wrapping around the plane.
pub open spec fn bg_abs_row(p: PpuState, i: int) -> int {
    (i + bg_origin_y(p) / 8) % 60
}

/// The 2-bit pattern index the background gives to screen pixel `(x, y)`;
/// 0 means transparent (the universal background shows through).
pub open spec fn bg_pixel(p: PpuState, bus: Seq<u8>, x: int, y: int) -> u8 {
    let j = (x + bg_origin_x(p) % 8) / 8;
    let i = (y + bg_origin_y(p) % 8) / 8;
    let aj = bg_abs_col(p, j);
    let ai = bg_abs_row(p, i);
    bg_tile_pixel_index(
        bus,
        bg_pattern_base(p.controller),
        quadrant_nt_base(aj, ai),
        aj % 32,
        ai % 30,
        (y + bg_origin_y(p) % 8) % 8,
        (x + bg_origin_x(p) % 8) % 8,
    )
}

/// The colour byte the background gives to screen pixel `(x, y)` when its
/// pattern index is opaque.
pub open spec fn bg_pixel_colour(p: PpuState, bus: Seq<u8>, x: int, y: int) -> u8 {
    let j = (x + bg_origin_x(p) % 8) / 8;
    let i = (y + bg_origin_y(p) % 8) / 8;
    let aj = bg_abs_col(p, j);
    let ai = bg_abs_row(p, i);
    bg_tile_pixel_colour(
        bus,
        bg_pattern_base(p.controller),
        quadrant_nt_base(aj, ai),
        aj % 32,
        ai % 30,
        (y + bg_origin_y(p) % 8) % 8,
        (x + bg_origin_x(p) % 8) % 8,
    )
}

/// Whether the background tile at local coordinates `(tx, ty)` of the
/// nametable at `nt_base`, drawn with its top-left pixel at `(offx, offy)`,
/// puts an opaque pixel on screen position `(x, y)`.
pub open spec fn tile_writes(
    bus: Seq<u8>,
    pt_base: int,
    nt_base: int,
    tx: int,
    ty: int,
    offx: int,
    offy: int,
    x: int,
    y: int,
) -> bool {
    0 <= y - offy < 8 && 0 <= x - offx < 8 && bg_tile_pixel_index(
        bus,
        pt_base,
        nt_base,
        tx,
        ty,
        y - offy,
        x - offx,
    ) != 0
}

/// Shifting right one more place composes: `(b >> j) >> 1 == b >> (j + 1)`.
proof fn lemma_shr_step(b: u8, j: u8)
    requires
        j < 8,
    ensures
        (b >> j) >> 1 == b >> (j + 1) as u8,
{
    let k: u8 = (j + 1) as u8;
    assert(j < 8 && k == j + 1 ==> (b >> j) >> 1 == b >> k) by (bit_vector);
}

/// Shifting right by nothing changes nothing.
proof fn lemma_shr_zero(b: u8)
    ensures
        b >> 0u8 == b,
{
    assert(b >> 0u8 == b) by (bit_vector);
}

/// For pattern-table bases, bit-or is addition: the offset stays under the
/// `0x1000` table size.
proof fn lemma_pattern_or(base: u16, off: u16)
    requires
        base == 0 || base == 0x1000,
        off < 0x1000,
    ensures
        (base | off) == base + off,
{
    let s: u16 = (base + off) as u16;
    assert((base == 0 || base == 0x1000) && off < 0x1000 && s == base + off ==> (base | off)
        == s) by (bit_vector);
}

/// A two-plane pixel index is a 2-bit value.
proof fn lemma_plane_pair_bounds(lo: u8, hi: u8, k: u8)
    ensures
        (((lo >> k) & 1) | (((hi >> k) & 1) << 1)) <= 3,
{
    assert((((lo >> k) & 1) | (((hi >> k) & 1) << 1)) <= 3) by (bit_vector);
}

/// An attribute selector is a 2-bit value.
proof fn lemma_attr_bits_bound(b: u8, s: u8)
    ensures
        ((b >> s) & 3) <= 3,
{
    assert(((b >> s) & 3) <= 3) by (bit_vector);
}

/// One OAM sprite record, decoded from its four bytes.
pub struct Sprite {
    pub x: u8,
    pub y: u8,
    pub index: u8,
    pub palette: u8,
    pub priority: bool,
    pub horizontal_flip: bool,
    pub vertical_flip: bool,
}

impl Sprite {
    /// Decode a sprite from its OAM bytes: the attribute byte carries the
    /// palette (bits 0-1), priority (bit 5) and the two flips (bits 6-7).
    fn new(x: u8, y: u8, attributes: u8, index: u8) -> (r: Sprite)
        ensures
            r.x == x,
            r.y == y,
            r.index == index,
            r.palette == attributes & 3,
            r.priority == (attributes & 0x20 != 0),
            r.horizontal_flip == (attributes & 0x40 != 0),
            r.vertical_flip == (attributes & 0x80 != 0),
    {
        Sprite {
            x,
            y,
            index,
            palette: attributes & 3,
            priority: attributes & 0x20 != 0,
            horizontal_flip: attributes & 0x40 != 0,
            vertical_flip: attributes & 0x80 != 0,
        }
    }

    /// A sprite is drawn only while its Y coordinate is on screen.
    fn is_visible(&self) -> (r: bool)
        ensures
            r == (self.y < 0xef),
    {
        self.y < 0xef
    }
}

/// The sprite record OAM slot `s` holds: bytes `4s..4s+4` are Y, tile
/// index, attributes, X.
pub open spec fn sprite_record(oam: Seq<u8>, s: int) -> Sprite {
    Sprite {
        x: oam[4 * s + 3],
        y: oam[4 * s],
        index: oam[4 * s + 1],
        palette: oam[4 * s + 2] & 3,
        priority: oam[4 * s + 2] & 0x20 != 0,
        horizontal_flip: oam[4 * s + 2] & 0x40 != 0,
        vertical_flip: oam[4 * s + 2] & 0x80 != 0,
    }
}

/// The 2-bit pattern index of the sprite pixel `(dx, dy)` relative to the
/// sprite's top-left corner, after applying its flips; 0 is transparent.
pub open spec fn spr_pixel_index(
    bus: Seq<u8>,
    controller: u8,
    sp: Sprite,
    dx: int,
    dy: int,
) -> u8 {
    let pt = sprite_pattern_base(controller) + sp.index * 16;
    let rr = if sp.vertical_flip {
        7 - dy
    } else {
        dy
    };
    let pp = if sp.horizontal_flip {
        7 - dx
    } else {
        dx
    };
    plane_pair_index(bus[pt + rr], bus[pt + 8 + rr], pp)
}

/// The colour byte an opaque sprite pixel resolves to through the sprite
/// palettes at `0x3F10`.
pub open spec fn spr_pixel_colour(
    bus: Seq<u8>,
    controller: u8,
    sp: Sprite,
    dx: int,
    dy: int,
) -> u8 {
    bus[0x3f10 + sp.palette * 4 + spr_pixel_index(bus, controller, sp, dx, dy)]
}

/// Whether a sprite puts an opaque pixel on screen position `(x, y)`.
pub open spec fn spr_writes(bus: Seq<u8>, controller: u8, sp: Sprite, x: int, y: int) -> bool {
    sp.y < 0xef && sp.x <= x < sp.x + 8 && sp.y <= y < sp.y + 8 && spr_pixel_index(
        bus,
        controller,
        sp,
        x - sp.x,
        y - sp.y,
    ) != 0
}

/// Whether a sprite has any opaque pixel at all; drawing it then reports a
/// hit, whether or not the pixel lands inside the visible frame.
pub open spec fn spr_hit(bus: Seq<u8>, controller: u8, sp: Sprite) -> bool {
    exists|dx: int, dy: int|
        0 <= dx < 8 && 0 <= dy < 8 && spr_pixel_index(bus, controller, sp, dx, dy) != 0
}

/// Whether the sprite scan, standing at pattern row `i` and bit `j`, has
/// already visited the sprite pixel `(dx, dy)`: rows are walked in pattern
/// order, bits from bit 0 upward.
spec fn spr_scan_done(sp: Sprite, dx: int, dy: int, i: int, j: int) -> bool {
    let rr = if sp.vertical_flip {
        7 - dy
    } else {
        dy
    };
    let pp = if sp.horizontal_flip {
        7 - dx
    } else {
        dx
    };
    rr < i || (rr == i && pp >= 8 - j)
}

/// Whether OAM slot `s` puts an opaque pixel on screen position `(x, y)`.
pub open spec fn sprite_covers(p: PpuState, bus: Seq<u8>, s: int, x: int, y: int) -> bool {
    spr_writes(bus, p.controller, sprite_record(p.oam, s), x, y)
}

/// Whether any OAM slot below `below` covers screen position `(x, y)`.
pub open spec fn covered_below(p: PpuState, bus: Seq<u8>, x: int, y: int, below: int) -> bool {
    exists|s: int| 0 <= s < below && sprite_covers(p, bus, s, x, y)
}

/// `c` is the colour the sprite layer leaves at `(x, y)` after drawing
/// slots `0..below` in ascending order: the colour of the highest-indexed
/// slot that covers the position, since later sprites overwrite earlier
/// ones.
pub open spec fn sprite_layer_pixel(
    p: PpuState,
    bus: Seq<u8>,
    x: int,
    y: int,
    below: int,
    c: u8,
) -> bool {
    exists|s: int|
        0 <= s < below && sprite_covers(p, bus, s, x, y) && c == spr_pixel_colour(
            bus,
            p.controller,
            sprite_record(p.oam, s),
            x - sprite_record(p.oam, s).x,
            y - sprite_record(p.oam, s).y,
        ) && (forall|t: int| s < t < below ==> !sprite_covers(p, bus, t, x, y))
}

/// What one screen position holds after the sprite layer has drawn slots
/// `0..below`: the topmost covering sprite's colour where one covers it,
/// else the base value `base` it held before.
pub open spec fn sprite_layer_done(
    p: PpuState,
    bus: Seq<u8>,
    x: int,
    y: int,
    below: int,
    c: u8,
    base: u8,
) -> bool {
    if covered_below(p, bus, x, y, below) {
        sprite_layer_pixel(p, bus, x, y, below, c)
    } else {
        c == base
    }
}

/// Whether sprite 0 is visible and draws any opaque pixel: rendering then
/// sets the sprite-0-hit flag.
pub open spec fn sprite0_hit(p: PpuState, bus: Seq<u8>) -> bool {
    p.oam[0] < 0xef && spr_hit(bus, p.controller, sprite_record(p.oam, 0))
}

/// `c` is the colour a full render leaves at `(x, y)`: the topmost opaque
/// sprite pixel if any sprite covers the position, else the background
/// tile colour if the background is opaque there, else the universal
/// background byte at `0x3F00`.
pub open spec fn frame_pixel_ok(p: PpuState, bus: Seq<u8>, x: int, y: int, c: u8) -> bool {
    if covered_below(p, bus, x, y, 64) {
        sprite_layer_pixel(p, bus, x, y, 64, c)
    } else if bg_pixel(p, bus, x, y) != 0 {
        c == bg_pixel_colour(p, bus, x, y)
    } else {
        c == bus[0x3f00]
    }
}

/// Flipping CTRL bit 4 moves the background pattern fetches from table
/// `0x0000` to table `0x1000` and shifts no other address: the scroll
/// origin (and with it every nametable and attribute fetch) and the sprite
/// pattern base are computed from other bits alone.
pub proof fn lemma_bg_pattern_flip(p: PpuState, q: PpuState)
    requires
        p.controller & 0x10 == 0,
        q.controller == p.controller | 0x10,
        q.scroll_x == p.scroll_x,
        q.scroll_y == p.scroll_y,
    ensures
        bg_pattern_base(p.controller) == 0,
        bg_pattern_base(q.controller) == 0x1000,
        bg_origin_x(q) == bg_origin_x(p),
        bg_origin_y(q) == bg_origin_y(p),
        sprite_pattern_base(q.controller) == sprite_pattern_base(p.controller),
{
    let c = p.controller;
    assert((c | 0x10) & 0x10 != 0) by (bit_vector);
    assert((c | 0x10) & 1 == c & 1) by (bit_vector);
    assert((c | 0x10) & 2 == c & 2) by (bit_vector);
    assert((c | 0x10) & 8 == c & 8) by (bit_vector);
}

/// With zero scroll and zero nametable selectors, the visible 32x30 tile
/// grid fetches its tile-index bytes from `0x2000..0x23C0`, each address
/// from exactly one tile, and its attribute bytes from `0x23C0..0x2400`,
/// each address from at least one tile (each attribute byte serves a 4x4
/// block of tiles); the extra edge row and column of the rendering loop
/// fetch from the other nametables only.
pub proof fn lemma_home_nametable_coverage(p: PpuState)
    requires
        p.controller & 3 == 0,
        p.scroll_x == 0,
        p.scroll_y == 0,
    ensures
        bg_origin_x(p) == 0,
        bg_origin_y(p) == 0,
        forall|i: int, j: int|
            0 <= i < 30 && 0 <= j < 32 ==> bg_abs_row(p, i) == i && bg_abs_col(p, j) == j
                && quadrant_nt_base(bg_abs_col(p, j), bg_abs_row(p, i)) == 0x2000,
        forall|i: int, j: int|
            0 <= i < 30 && 0 <= j < 32 ==> 0x2000 <= #[trigger] nt_byte_addr(0x2000, j, i)
                < 0x23c0 && nt_byte_addr(0x2000, j, i) == 0x2000 + i * 32 + j,
        forall|i: int, j: int, i2: int, j2: int|
            0 <= i < 30 && 0 <= j < 32 && 0 <= i2 < 30 && 0 <= j2 < 32 && #[trigger] nt_byte_addr(
                0x2000,
                j,
                i,
            ) == #[trigger] nt_byte_addr(0x2000, j2, i2) ==> i == i2 && j == j2,
        forall|a: int|
            0x2000 <= a < 0x23c0 ==> #[trigger] nt_byte_addr(
                0x2000,
                (a - 0x2000) % 32,
                (a - 0x2000) / 32,
            ) == a && 0 <= (a - 0x2000) / 32 < 30 && 0 <= (a - 0x2000) % 32 < 32,
        forall|i: int, j: int|
            0 <= i < 30 && 0 <= j < 32 ==> 0x23c0 <= #[trigger] attr_byte_addr(0x2000, j, i)
                < 0x2400,
        forall|a: int|
            0x23c0 <= a < 0x2400 ==> #[trigger] attr_byte_addr(
                0x2000,
                4 * ((a - 0x23c0) % 8),
                4 * ((a - 0x23c0) / 8),
            ) == a && 0 <= 4 * ((a - 0x23c0) / 8) < 30 && 0 <= 4 * ((a - 0x23c0) % 8) < 32,
        forall|i: int, j: int|
            0 <= i < 31 && 0 <= j < 33 && (i == 30 || j == 32) ==> quadrant_nt_base(
                bg_abs_col(p, j),
                bg_abs_row(p, i),
            ) != 0x2000,
{
    let c = p.controller;
    assert(c & 3 == 0 ==> c & 1 == 0 && c & 2 == 0) by (bit_vector);
    assert forall|a: int| 0x2000 <= a < 0x23c0 implies #[trigger] nt_byte_addr(
        0x2000,
        (a - 0x2000) % 32,
        (a - 0x2000) / 32,
    ) == a && 0 <= (a - 0x2000) / 32 < 30 && 0 <= (a - 0x2000) % 32 < 32 by {
        assert(a - 0x2000 == 32 * ((a - 0x2000) / 32) + (a - 0x2000) % 32);
    }
    assert forall|a: int| 0x23c0 <= a < 0x2400 implies #[trigger] attr_byte_addr(
        0x2000,
        4 * ((a - 0x23c0) % 8),
        4 * ((a - 0x23c0) / 8),
    ) == a && 0 <= 4 * ((a - 0x23c0) / 8) < 30 && 0 <= 4 * ((a - 0x23c0) % 8) < 32 by {
        assert(a - 0x23c0 == 8 * ((a - 0x23c0) / 8) + (a - 0x23c0) % 8);
        assert((4 * ((a - 0x23c0) % 8)) / 4 == (a - 0x23c0) % 8);
        assert((4 * ((a - 0x23c0) / 8)) / 4 == (a - 0x23c0) / 8);
    }
}

/// Whether the background tile loop has already drawn the tile covering
/// screen pixel `(x, y)` when it stands at row `i`, column `j`: rows are
/// drawn top to bottom, and within a row columns left to right.
pub open spec fn bg_tile_done(p: PpuState, x: int, y: int, i: int, j: int) -> bool {
    let ti = (y + bg_origin_y(p) % 8) / 8;
    let tj = (x + bg_origin_x(p) % 8) / 8;
    ti < i || (ti == i && tj < j)
}

/// Screen pixel `(x, y)` belongs to loop tile `(i, j)` with
/// `i = (y + suboffset) / 8`, `j = (x + suboffset) / 8`, and there reads
/// tile-relative coordinates `(y + offy) % 8`, `(x + offx) % 8`; the
/// full-frame background functions unfold accordingly.
proof fn lemma_bg_pixel_unfold(p: PpuState, bus: Seq<u8>, i: int, j: int, x: int, y: int)
    requires
        0 <= x < 256,
        0 <= y < 240,
        (y + bg_origin_y(p) % 8) / 8 == i,
        (x + bg_origin_x(p) % 8) / 8 == j,
    ensures
        0 <= y - (8 * i - bg_origin_y(p) % 8) < 8,
        0 <= x - (8 * j - bg_origin_x(p) % 8) < 8,
        bg_pixel(p, bus, x, y) == bg_tile_pixel_index(
            bus,
            bg_pattern_base(p.controller),
            quadrant_nt_base(bg_abs_col(p, j), bg_abs_row(p, i)),
            bg_abs_col(p, j) % 32,
            bg_abs_row(p, i) % 30,
            y - (8 * i - bg_origin_y(p) % 8),
            x - (8 * j - bg_origin_x(p) % 8),
        ),
        bg_pixel_colour(p, bus, x, y) == bg_tile_pixel_colour(
            bus,
            bg_pattern_base(p.controller),
            quadrant_nt_base(bg_abs_col(p, j), bg_abs_row(p, i)),
            bg_abs_col(p, j) % 32,
            bg_abs_row(p, i) % 30,
            y - (8 * i - bg_origin_y(p) % 8),
            x - (8 * j - bg_origin_x(p) % 8),
        ),
{
    let offy = bg_origin_y(p) % 8;
    let offx = bg_origin_x(p) % 8;
    assert(y + offy == 8 * i + (y + offy) % 8);
    assert(x + offx == 8 * j + (x + offx) % 8);
}

impl Ppu {
    /// The background pattern table base: `0x0000`, or `0x1000` when CTRL
    /// bit 4 is set.
    fn background_base_patterntable_address(&self) -> (r: u16)
        ensures
            r as int == bg_pattern_base(self@.controller),
    {
        if self.registers.controller & 0x10 == 0 {
            0x0000
        } else {
            0x1000
        }
    }

    /// The sprite pattern table base: `0x0000`, or `0x1000` when CTRL
    /// bit 3 is set.
    fn sprite_base_patterntable_address(&self) -> (r: u16)
        ensures
            r as int == sprite_pattern_base(self@.controller),
    {
        if self.registers.controller & 8 == 0 {
            0x0000
        } else {
            0x1000
        }
    }

    /// The index of the metatile (a 2x2-tile block) that tile `(tile_x,
    /// tile_y)` occupies within its 4x4-tile attribute cell; indices are
    /// unique within one cell.
    fn metatile_id(tile_x: u16, tile_y: u16) -> (r: u8)
        ensures
            r * 2 == metatile_shift(tile_x as int, tile_y as int),
            r <= 3,
    {
        let x: u16 = tile_x / 2;
        let y: u16 = tile_y / 2;
        ((y % 2) * 2 + x % 2) as u8
    }

    /// The plane pixel coordinates of the top-left corner of the visible
    /// window.
    fn background_top_left_coord(&self) -> (r: (u16, u16))
        ensures
            r.0 as int == bg_origin_x(self@),
            r.1 as int == bg_origin_y(self@),
            r.0 < 512,
            r.1 < 496,
    {
        let mut x: u16 = self.scroll_x as u16;
        let mut y: u16 = self.scroll_y as u16;
        if self.registers.controller & 1 != 0 {
            x = x + 256;
        }
        if self.registers.controller & 2 != 0 {
            y = y + 240;
        }
        (x, y)
    }

    /// Fill the whole frame with the universal background colour, the
    /// palette byte at `0x3F00`.
    fn render_universal_background<F: Frame, M: PpuAddressable>(
        &mut self,
        frame: &mut F,
        memory: &mut M,
    ) -> (r: Result<(), Error>)
        requires
            old(frame).inv(),
            old(memory).inv(),
        ensures
            final(self)@ == old(self)@,
            final(frame).inv(),
            final(memory).inv(),
            final(memory).bus() == old(memory).bus(),
            old(memory).bus().len() == 0x4000,
            r == Ok::<(), Error>(()),
            final(frame).pix().len() == 61440,
            forall|k: int|
                0 <= k < 61440 ==> final(frame).pix()[k] == old(memory).bus()[0x3f00],
    {
        proof {
            frame.pix_wf();
        }
        let colour: u8 = match memory.ppu_read8(0x3f00) {
            Ok(v) => v,
            Err(_) => {
                proof {
                    assert(false);
                }
                return Err(Error::BusErrorRead(0x3f00));
            },
        };
        let mut i: usize = 0;
        while i < 240
            invariant
                frame.inv(),
                frame.pix().len() == 61440,
                i <= 240,
                forall|k: int| 0 <= k < i * 256 ==> frame.pix()[k] == colour,
            decreases 240 - i,
        {
            let mut j: usize = 0;
            while j < 256
                invariant
                    frame.inv(),
                    frame.pix().len() == 61440,
                    i < 240,
                    j <= 256,
                    forall|k: int| 0 <= k < i * 256 + j ==> frame.pix()[k] == colour,
                decreases 256 - j,
            {
                frame.set_pixel(j, i, colour);
                j = j + 1;
            }
            i = i + 1;
        }
        Ok(())
    }

    /// Draw one background tile: look its pattern up through the
    /// nametable, its palette through the attribute table, and write every
    /// opaque pixel that lands inside the visible frame; transparent
    /// pixels and pixels outside the frame leave the sink untouched.
    #[verifier::rlimit(60)]
    fn render_background_tile<F: Frame, M: PpuAddressable>(
        frame: &mut F,
        memory: &mut M,
        pt_base: u16,
        nt_base: u16,
        nt_tile_x: u16,
        nt_tile_y: u16,
        px_off_x: i32,
        px_off_y: i32,
    ) -> (r: Result<(), Error>)
        requires
            old(frame).inv(),
            old(memory).inv(),
            pt_base == 0 || pt_base == 0x1000,
            nt_base == 0x2000 || nt_base == 0x2400 || nt_base == 0x2800 || nt_base == 0x2c00,
            nt_tile_x < 32,
            nt_tile_y < 30,
            -512 <= px_off_x <= 512,
            -512 <= px_off_y <= 512,
        ensures
            final(frame).inv(),
            final(memory).inv(),
            final(memory).bus() == old(memory).bus(),
            old(memory).bus().len() == 0x4000,
            old(frame).pix().len() == 61440,
            final(frame).pix().len() == 61440,
            r == Ok::<(), Error>(()),
            forall|x: int, y: int|
                0 <= x < 256 && 0 <= y < 240 ==> #[trigger] final(frame).pix()[y * 256 + x] == (
                if tile_writes(
                    old(memory).bus(),
                    pt_base as int,
                    nt_base as int,
                    nt_tile_x as int,
                    nt_tile_y as int,
                    px_off_x as int,
                    px_off_y as int,
                    x,
                    y,
                ) {
                    bg_tile_pixel_colour(
                        old(memory).bus(),
                        pt_base as int,
                        nt_base as int,
                        nt_tile_x as int,
                        nt_tile_y as int,
                        y - px_off_y,
                        x - px_off_x,
                    )
                } else {
                    old(frame).pix()[y * 256 + x]
                }),
    {
        proof {
            frame.pix_wf();
        }
        let ghost bus = old(memory).bus();
        let ghost tx = nt_tile_x as int;
        let ghost ty = nt_tile_y as int;
        let ghost offx = px_off_x as int;
        let ghost offy = px_off_y as int;

        let nt_address: u16 = nt_base + nt_tile_y * 32 + nt_tile_x;
        let pt_index: u8 = match memory.ppu_read8(nt_address) {
            Ok(v) => v,
            Err(_) => {
                proof {
                    assert(false);
                }
                return Err(Error::BusErrorRead(nt_address));
            },
        };
        assert(pt_index == bus[nt_byte_addr(nt_base as int, tx, ty)]);

        let pt_offset: u16 = (pt_index as u16) * 16;
        let pt_address: u16 = pt_base | pt_offset;
        proof {
            lemma_pattern_or(pt_base, pt_offset);
        }
        assert(pt_address as int == tile_pattern_addr(pt_base as int, pt_index));

        let at_address: u16 = nt_base + 0x3c0 + (nt_tile_y / 4) * 8 + nt_tile_x / 4;
        let at_byte: u8 = match memory.ppu_read8(at_address) {
            Ok(v) => v,
            Err(_) => {
                proof {
                    assert(false);
                }
                return Err(Error::BusErrorRead(at_address));
            },
        };
        assert(at_byte == bus[attr_byte_addr(nt_base as int, tx, ty)]);

        let mid: u8 = Self::metatile_id(nt_tile_x, nt_tile_y);
        let at_bits: u8 = (at_byte >> (mid * 2)) & 3;
        proof {
            lemma_attr_bits_bound(at_byte, (mid * 2) as u8);
        }
        assert(at_bits == tile_attr_bits(bus, nt_base as int, tx, ty));

        let palette_base: u16 = 0x3f00 + (at_bits as u16) * 4;

        let mut r: u16 = 0;
        while r < 8
            invariant
                frame.inv(),
                memory.inv(),
                frame.pix().len() == 61440,
                memory.bus() == bus,
                bus.len() == 0x4000,
                r <= 8,
                pt_base == 0 || pt_base == 0x1000,
                nt_tile_x < 32,
                nt_tile_y < 30,
                -512 <= px_off_x <= 512,
                -512 <= px_off_y <= 512,
                tx == nt_tile_x as int,
                ty == nt_tile_y as int,
                offx == px_off_x as int,
                offy == px_off_y as int,
                pt_address as int == tile_pattern_addr(
                    pt_base as int,
                    bus[nt_byte_addr(nt_base as int, tx, ty)],
                ),
                pt_address <= 0x1ff0,
                at_bits == tile_attr_bits(bus, nt_base as int, tx, ty),
                at_bits <= 3,
                palette_base as int == 0x3f00 + at_bits * 4,
                forall|x: int, y: int|
                    0 <= x < 256 && 0 <= y < 240 ==> #[trigger] frame.pix()[y * 256 + x] == (
                    if y - offy < r && tile_writes(
                        bus,
                        pt_base as int,
                        nt_base as int,
                        tx,
                        ty,
                        offx,
                        offy,
                        x,
                        y,
                    ) {
                        bg_tile_pixel_colour(
                            bus,
                            pt_base as int,
                            nt_base as int,
                            tx,
                            ty,
                            y - offy,
                            x - offx,
                        )
                    } else {
                        old(frame).pix()[y * 256 + x]
                    }),
            decreases 8 - r,
        {
            let lo: u8 = match memory.ppu_read8(pt_address + r) {
                Ok(v) => v,
                Err(_) => {
                    proof {
                        assert(false);
                    }
                    return Err(Error::BusErrorRead(pt_address));
                },
            };
            let hi: u8 = match memory.ppu_read8(pt_address + 8 + r) {
                Ok(v) => v,
                Err(_) => {
                    proof {
                        assert(false);
                    }
                    return Err(Error::BusErrorRead(pt_address));
                },
            };
            assert(lo == bus[tile_pattern_addr(pt_base as int, bus[nt_byte_addr(
                nt_base as int,
                tx,
                ty,
            )]) + r]);
            assert(hi == bus[tile_pattern_addr(pt_base as int, bus[nt_byte_addr(
                nt_base as int,
                tx,
                ty,
            )]) + 8 + r]);

            let pixel_y: i32 = px_off_y + r as i32;
            if pixel_y < 0 || pixel_y >= 240 {
                r = r + 1;
                continue ;
            }

            let mut row_0: u8 = lo;
            let mut row_1: u8 = hi;
            proof {
                lemma_shr_zero(lo);
                lemma_shr_zero(hi);
            }
            let mut j: u8 = 0;
            while j < 8
                invariant
                    frame.inv(),
                    memory.inv(),
                    frame.pix().len() == 61440,
                    memory.bus() == bus,
                    bus.len() == 0x4000,
                    j <= 8,
                    r < 8,
                    pt_base == 0 || pt_base == 0x1000,
                    nt_tile_x < 32,
                    nt_tile_y < 30,
                    -512 <= px_off_x <= 512,
                    -512 <= px_off_y <= 512,
                    tx == nt_tile_x as int,
                    ty == nt_tile_y as int,
                    offx == px_off_x as int,
                    offy == px_off_y as int,
                    0 <= pixel_y < 240,
                    pixel_y as int == offy + r,
                    lo == bus[tile_pattern_addr(
                        pt_base as int,
                        bus[nt_byte_addr(nt_base as int, tx, ty)],
                    ) + r],
                    hi == bus[tile_pattern_addr(
                        pt_base as int,
                        bus[nt_byte_addr(nt_base as int, tx, ty)],
                    ) + 8 + r],
                    row_0 == lo >> j,
                    row_1 == hi >> j,
                    at_bits == tile_attr_bits(bus, nt_base as int, tx, ty),
                    at_bits <= 3,
                    palette_base as int == 0x3f00 + at_bits * 4,
                    forall|x: int, y: int|
                        0 <= x < 256 && 0 <= y < 240 ==> #[trigger] frame.pix()[y * 256 + x] == (
                        if (y - offy < r || (y - offy == r && x - offx >= 8 - j)) && tile_writes(
                            bus,
                            pt_base as int,
                            nt_base as int,
                            tx,
                            ty,
                            offx,
                            offy,
                            x,
                            y,
                        ) {
                            bg_tile_pixel_colour(
                                bus,
                                pt_base as int,
                                nt_base as int,
                                tx,
                                ty,
                                y - offy,
                                x - offx,
                            )
                        } else {
                            old(frame).pix()[y * 256 + x]
                        }),
                decreases 8 - j,
            {
                let palette_index: u8 = (row_0 & 1) | ((row_1 & 1) << 1);
                proof {
                    lemma_plane_pair_bounds(lo, hi, j);
                    assert(palette_index == plane_pair_index(lo, hi, 7 - j as int));
                    assert(palette_index == bg_tile_pixel_index(
                        bus,
                        pt_base as int,
                        nt_base as int,
                        tx,
                        ty,
                        r as int,
                        7 - j as int,
                    ));
                    lemma_shr_step(lo, j);
                    lemma_shr_step(hi, j);
                }
                row_0 = row_0 >> 1;
                row_1 = row_1 >> 1;

                if palette_index != 0 {
                    let colour: u8 = match memory.ppu_read8(palette_base + palette_index as u16) {
                        Ok(v) => v,
                        Err(_) => {
                            proof {
                                assert(false);
                            }
                            return Err(Error::BusErrorRead(palette_base));
                        },
                    };
                    assert(colour == bg_tile_pixel_colour(
                        bus,
                        pt_base as int,
                        nt_base as int,
                        tx,
                        ty,
                        r as int,
                        7 - j as int,
                    ));
                    let pixel_x: i32 = px_off_x + (7 - j as i32);
                    if pixel_x >= 0 && pixel_x < 256 {
                        frame.set_pixel(pixel_x as usize, pixel_y as usize, colour);
                    }
                }
                j = j + 1;
            }
            r = r + 1;
        }
        Ok(())
    }

    /// The base address of the nametable holding absolute tile `(x, y)`
    /// of the 64x60-tile plane.
    fn tile_coord_to_nametable_base(&self, x: u16, y: u16) -> (r: u16)
        ensures
            r as int == quadrant_nt_base(x as int, y as int),
            r == 0x2000 || r == 0x2400 || r == 0x2800 || r == 0x2c00,
    {
        if x < 32 {
            if y < 30 {
                0x2000
            } else {
                0x2800
            }
        } else {
            if y < 30 {
                0x2400
            } else {
                0x2c00
            }
        }
    }

    /// Draw the whole background: one extra row and column of tiles
    /// beyond the 32x30 visible grid, so partial edge tiles render at
    /// non-zero subtile scroll offsets. Every screen pixel whose tile
    /// pattern is opaque receives its palette colour; transparent pixels
    /// keep what the sink already held.
    #[verifier::rlimit(100)]
    fn render_background<F: Frame, M: PpuAddressable>(
        &mut self,
        frame: &mut F,
        memory: &mut M,
    ) -> (r: Result<(), Error>)
        requires
            old(frame).inv(),
            old(memory).inv(),
        ensures
            final(self)@ == old(self)@,
            final(frame).inv(),
            final(memory).inv(),
            final(memory).bus() == old(memory).bus(),
            old(memory).bus().len() == 0x4000,
            old(frame).pix().len() == 61440,
            final(frame).pix().len() == 61440,
            r == Ok::<(), Error>(()),
            forall|x: int, y: int|
                0 <= x < 256 && 0 <= y < 240 ==> #[trigger] final(frame).pix()[y * 256 + x] == (
                if bg_pixel(old(self)@, old(memory).bus(), x, y) != 0 {
                    bg_pixel_colour(old(self)@, old(memory).bus(), x, y)
                } else {
                    old(frame).pix()[y * 256 + x]
                }),
    {
        proof {
            frame.pix_wf();
            memory.bus_wf();
        }
        let ghost p = self@;
        let ghost bus = old(memory).bus();

        let pt_base: u16 = self.background_base_patterntable_address();
        let coord: (u16, u16) = self.background_top_left_coord();
        let pixel_offset_x: u16 = coord.0 % 8;
        let pixel_offset_y: u16 = coord.1 % 8;
        let tile_offset_x: u16 = coord.0 / 8;
        let tile_offset_y: u16 = coord.1 / 8;
        assert(pixel_offset_x as int == bg_origin_x(p) % 8);
        assert(pixel_offset_y as int == bg_origin_y(p) % 8);
        assert(tile_offset_x as int == bg_origin_x(p) / 8);
        assert(tile_offset_y as int == bg_origin_y(p) / 8);

        let mut i: u16 = 0;
        while i < 31
            invariant
                frame.inv(),
                memory.inv(),
                frame.pix().len() == 61440,
                memory.bus() == bus,
                bus.len() == 0x4000,
                i <= 31,
                p == self@,
                pt_base as int == bg_pattern_base(p.controller),
                pixel_offset_x as int == bg_origin_x(p) % 8,
                pixel_offset_y as int == bg_origin_y(p) % 8,
                tile_offset_x as int == bg_origin_x(p) / 8,
                tile_offset_y as int == bg_origin_y(p) / 8,
                tile_offset_x < 64,
                tile_offset_y < 62,
                forall|x: int, y: int|
                    0 <= x < 256 && 0 <= y < 240 ==> #[trigger] frame.pix()[y * 256 + x] == (
                    if bg_tile_done(p, x, y, i as int, 0) && bg_pixel(p, bus, x, y) != 0 {
                        bg_pixel_colour(p, bus, x, y)
                    } else {
                        old(frame).pix()[y * 256 + x]
                    }),
            decreases 31 - i,
        {
            let mut j: u16 = 0;
            while j < 33
                invariant
                    frame.inv(),
                    memory.inv(),
                    frame.pix().len() == 61440,
                    memory.bus() == bus,
                    bus.len() == 0x4000,
                    i < 31,
                    j <= 33,
                    p == self@,
                    pt_base as int == bg_pattern_base(p.controller),
                    pixel_offset_x as int == bg_origin_x(p) % 8,
                    pixel_offset_y as int == bg_origin_y(p) % 8,
                    tile_offset_x as int == bg_origin_x(p) / 8,
                    tile_offset_y as int == bg_origin_y(p) / 8,
                    tile_offset_x < 64,
                    tile_offset_y < 62,
                    forall|x: int, y: int|
                        0 <= x < 256 && 0 <= y < 240 ==> #[trigger] frame.pix()[y * 256 + x] == (
                        if bg_tile_done(p, x, y, i as int, j as int) && bg_pixel(p, bus, x, y)
                            != 0 {
                            bg_pixel_colour(p, bus, x, y)
                        } else {
                            old(frame).pix()[y * 256 + x]
                        }),
                decreases 33 - j,
            {
                let abs_i: u16 = (i + tile_offset_y) % 60;
                let abs_j: u16 = (j + tile_offset_x) % 64;
                let nt_base: u16 = self.tile_coord_to_nametable_base(abs_j, abs_i);
                let local_x: u16 = abs_j % 32;
                let local_y: u16 = abs_i % 30;
                let px_x: i32 = (j as i32) * 8 - pixel_offset_x as i32;
                let px_y: i32 = (i as i32) * 8 - pixel_offset_y as i32;
                assert(abs_i as int == bg_abs_row(p, i as int));
                assert(abs_j as int == bg_abs_col(p, j as int));
                match Self::render_background_tile(
                    frame,
                    memory,
                    pt_base,
                    nt_base,
                    local_x,
                    local_y,
                    px_x,
                    px_y,
                ) {
                    Ok(()) => {},
                    Err(e) => {
                        proof {
                            assert(false);
                        }
                        return Err(e);
                    },
                }
                proof {
                    assert forall|x: int, y: int| 0 <= x < 256 && 0 <= y < 240 implies #[trigger]
                    frame.pix()[y * 256 + x] == (
                    if bg_tile_done(p, x, y, i as int, j as int + 1) && bg_pixel(p, bus, x, y)
                        != 0 {
                        bg_pixel_colour(p, bus, x, y)
                    } else {
                        old(frame).pix()[y * 256 + x]
                    }) by {
                        let ti = (y + bg_origin_y(p) % 8) / 8;
                        let tj = (x + bg_origin_x(p) % 8) / 8;
                        assert(y + bg_origin_y(p) % 8 == 8 * ti + (y + bg_origin_y(p) % 8) % 8);
                        assert(x + bg_origin_x(p) % 8 == 8 * tj + (x + bg_origin_x(p) % 8) % 8);
                        if ti == i as int && tj == j as int {
                            lemma_bg_pixel_unfold(p, bus, ti, tj, x, y);
                        } else {
                            assert(!tile_writes(
                                bus,
                                pt_base as int,
                                nt_base as int,
                                local_x as int,
                                local_y as int,
                                px_x as int,
                                px_y as int,
                                x,
                                y,
                            ));
                        }
                    }
                }
                j = j + 1;
            }
            proof {
                assert forall|x: int, y: int| 0 <= x < 256 && 0 <= y < 240 implies (bg_tile_done(
                    p,
                    x,
                    y,
                    i as int,
                    33,
                ) == bg_tile_done(p, x, y, i as int + 1, 0)) by {
                    let tj = (x + bg_origin_x(p) % 8) / 8;
                    assert(x + bg_origin_x(p) % 8 < 264);
                    assert(tj < 33);
                }
            }
            i = i + 1;
        }
        proof {
            assert forall|x: int, y: int| 0 <= x < 256 && 0 <= y < 240 implies bg_tile_done(
                p,
                x,
                y,
                31,
                0,
            ) by {
                assert(y + bg_origin_y(p) % 8 < 248);
            }
        }
        Ok(())
    }

    /// Draw one 8x8 sprite: write every opaque pixel through the sprite
    /// palettes, honouring the two flips, and report whether any opaque
    /// pixel was drawn at all. Pixels falling outside the visible frame
    /// are dropped by the sink but still count towards the hit.
    #[verifier::rlimit(60)]
    fn render_sprite_8x8<F: Frame, M: PpuAddressable>(
        frame: &mut F,
        memory: &mut M,
        controller: u8,
        sprite: Sprite,
    ) -> (r: Result<bool, Error>)
        requires
            old(frame).inv(),
            old(memory).inv(),
            sprite.palette <= 3,
            sprite.y < 0xef,
        ensures
            final(frame).inv(),
            final(memory).inv(),
            final(memory).bus() == old(memory).bus(),
            old(memory).bus().len() == 0x4000,
            old(frame).pix().len() == 61440,
            final(frame).pix().len() == 61440,
            r == Ok::<bool, Error>(spr_hit(old(memory).bus(), controller, sprite)),
            forall|x: int, y: int|
                0 <= x < 256 && 0 <= y < 240 ==> #[trigger] final(frame).pix()[y * 256 + x] == (
                if spr_writes(old(memory).bus(), controller, sprite, x, y) {
                    spr_pixel_colour(
                        old(memory).bus(),
                        controller,
                        sprite,
                        x - sprite.x,
                        y - sprite.y,
                    )
                } else {
                    old(frame).pix()[y * 256 + x]
                }),
    {
        proof {
            frame.pix_wf();
            memory.bus_wf();
        }
        let ghost bus = old(memory).bus();

        let pt_base: u16 = if controller & 8 == 0 {
            0x0000
        } else {
            0x1000
        };
        let pt_offset: u16 = (sprite.index as u16) * 16;
        let pt_address: u16 = pt_base | pt_offset;
        proof {
            lemma_pattern_or(pt_base, pt_offset);
        }
        assert(pt_address as int == sprite_pattern_base(controller) + sprite.index * 16);

        let palette_base: u16 = 0x3f10 + (sprite.palette as u16) * 4;
        let mut hit: bool = false;

        let mut i: u16 = 0;
        while i < 8
            invariant
                frame.inv(),
                memory.inv(),
                frame.pix().len() == 61440,
                memory.bus() == bus,
                bus.len() == 0x4000,
                i <= 8,
                sprite.palette <= 3,
                sprite.y < 0xef,
                pt_address as int == sprite_pattern_base(controller) + sprite.index * 16,
                pt_address <= 0x1ff0,
                palette_base as int == 0x3f10 + sprite.palette * 4,
                hit == exists|dx: int, dy: int|
                    0 <= dx < 8 && 0 <= dy < 8 && spr_scan_done(sprite, dx, dy, i as int, 0)
                        && spr_pixel_index(bus, controller, sprite, dx, dy) != 0,
                forall|x: int, y: int|
                    0 <= x < 256 && 0 <= y < 240 ==> #[trigger] frame.pix()[y * 256 + x] == (
                    if spr_writes(bus, controller, sprite, x, y) && spr_scan_done(
                        sprite,
                        x - sprite.x,
                        y - sprite.y,
                        i as int,
                        0,
                    ) {
                        spr_pixel_colour(bus, controller, sprite, x - sprite.x, y - sprite.y)
                    } else {
                        old(frame).pix()[y * 256 + x]
                    }),
            decreases 8 - i,
        {
            let lo: u8 = match memory.ppu_read8(pt_address + i) {
                Ok(v) => v,
                Err(_) => {
                    proof {
                        assert(false);
                    }
                    return Err(Error::BusErrorRead(pt_address));
                },
            };
            let hi: u8 = match memory.ppu_read8(pt_address + 8 + i) {
                Ok(v) => v,
                Err(_) => {
                    proof {
                        assert(false);
                    }
                    return Err(Error::BusErrorRead(pt_address));
                },
            };

            let pixel_y: u16 = if sprite.vertical_flip {
                sprite.y as u16 + 7 - i
            } else {
                sprite.y as u16 + i
            };

            let mut row_0: u8 = lo;
            let mut row_1: u8 = hi;
            proof {
                lemma_shr_zero(lo);
                lemma_shr_zero(hi);
            }
            let mut j: u8 = 0;
            while j < 8
                invariant
                    frame.inv(),
                    memory.inv(),
                    frame.pix().len() == 61440,
                    memory.bus() == bus,
                    bus.len() == 0x4000,
                    i < 8,
                    j <= 8,
                    sprite.palette <= 3,
                    sprite.y < 0xef,
                    pt_address as int == sprite_pattern_base(controller) + sprite.index * 16,
                    pt_address <= 0x1ff0,
                    palette_base as int == 0x3f10 + sprite.palette * 4,
                    lo == bus[pt_address as int + i],
                    hi == bus[pt_address as int + 8 + i],
                    row_0 == lo >> j,
                    row_1 == hi >> j,
                    pixel_y as int == sprite.y + (if sprite.vertical_flip {
                        7 - i as int
                    } else {
                        i as int
                    }),
                    hit == exists|dx: int, dy: int|
                        0 <= dx < 8 && 0 <= dy < 8 && spr_scan_done(
                            sprite,
                            dx,
                            dy,
                            i as int,
                            j as int,
                        ) && spr_pixel_index(bus, controller, sprite, dx, dy) != 0,
                    forall|x: int, y: int|
                        0 <= x < 256 && 0 <= y < 240 ==> #[trigger] frame.pix()[y * 256 + x] == (
                        if spr_writes(bus, controller, sprite, x, y) && spr_scan_done(
                            sprite,
                            x - sprite.x,
                            y - sprite.y,
                            i as int,
                            j as int,
                        ) {
                            spr_pixel_colour(bus, controller, sprite, x - sprite.x, y - sprite.y)
                        } else {
                            old(frame).pix()[y * 256 + x]
                        }),
                decreases 8 - j,
            {
                let palette_index: u8 = (row_0 & 1) | ((row_1 & 1) << 1);
                let ghost dy: int = if sprite.vertical_flip {
                    7 - i as int
                } else {
                    i as int
                };
                let ghost dx: int = if sprite.horizontal_flip {
                    j as int
                } else {
                    7 - j as int
                };
                proof {
                    lemma_plane_pair_bounds(lo, hi, j);
                    assert(palette_index == plane_pair_index(lo, hi, 7 - j as int));
                    assert(palette_index == spr_pixel_index(bus, controller, sprite, dx, dy));
                    lemma_shr_step(lo, j);
                    lemma_shr_step(hi, j);
                }
                row_0 = row_0 >> 1;
                row_1 = row_1 >> 1;

                if palette_index != 0 {
                    let colour: u8 = match memory.ppu_read8(palette_base + palette_index as u16) {
                        Ok(v) => v,
                        Err(_) => {
                            proof {
                                assert(false);
                            }
                            return Err(Error::BusErrorRead(palette_base));
                        },
                    };
                    assert(colour == spr_pixel_colour(bus, controller, sprite, dx, dy));
                    let pixel_x: u16 = if sprite.horizontal_flip {
                        sprite.x as u16 + j as u16
                    } else {
                        sprite.x as u16 + 7 - j as u16
                    };
                    assert(pixel_x as int == sprite.x + dx);
                    frame.set_pixel(pixel_x as usize, pixel_y as usize, colour);
                    hit = true;
                }
                proof {
                    assert forall|dx2: int, dy2: int|
                        0 <= dx2 < 8 && 0 <= dy2 < 8 && spr_scan_done(
                            sprite,
                            dx2,
                            dy2,
                            i as int,
                            j as int + 1,
                        ) && !spr_scan_done(sprite, dx2, dy2, i as int, j as int) implies dx2 == dx
                        && dy2 == dy by {
                    }
                }
                j = j + 1;
            }
            i = i + 1;
        }
        Ok(hit)
    }

    /// Draw all 64 sprites in ascending OAM order, so later slots
    /// overwrite earlier ones; slots whose Y coordinate is off screen are
    /// skipped. If sprite 0 drew any opaque pixel, set the sprite-0-hit
    /// flag in STATUS.
    #[verifier::rlimit(60)]
    fn render_sprites_8x8<F: Frame, M: PpuAddressable>(
        &mut self,
        frame: &mut F,
        memory: &mut M,
    ) -> (r: Result<(), Error>)
        requires
            old(self)@.wf(),
            old(frame).inv(),
            old(memory).inv(),
        ensures
            final(self)@.wf(),
            final(frame).inv(),
            final(memory).inv(),
            final(memory).bus() == old(memory).bus(),
            old(memory).bus().len() == 0x4000,
            old(frame).pix().len() == 61440,
            final(frame).pix().len() == 61440,
            r == Ok::<(), Error>(()),
            final(self)@ == (PpuState {
                status: if sprite0_hit(old(self)@, old(memory).bus()) {
                    old(self)@.status | 0x40
                } else {
                    old(self)@.status
                },
                ..old(self)@
            }),
            forall|x: int, y: int|
                0 <= x < 256 && 0 <= y < 240 ==> #[trigger] sprite_layer_done(
                    old(self)@,
                    old(memory).bus(),
                    x,
                    y,
                    64,
                    final(frame).pix()[y * 256 + x],
                    old(frame).pix()[y * 256 + x],
                ),
    {
        proof {
            frame.pix_wf();
            memory.bus_wf();
        }
        let ghost p = old(self)@;
        let ghost bus = old(memory).bus();

        let mut s: usize = 0;
        while s < 64
            invariant
                frame.inv(),
                memory.inv(),
                frame.pix().len() == 61440,
                old(frame).pix().len() == 61440,
                memory.bus() == bus,
                bus.len() == 0x4000,
                s <= 64,
                p.wf(),
                self@ == (PpuState {
                    status: if s > 0 && sprite0_hit(p, bus) {
                        p.status | 0x40
                    } else {
                        p.status
                    },
                    ..p
                }),
                forall|x: int, y: int|
                    0 <= x < 256 && 0 <= y < 240 ==> #[trigger] sprite_layer_done(
                        p,
                        bus,
                        x,
                        y,
                        s as int,
                        frame.pix()[y * 256 + x],
                        old(frame).pix()[y * 256 + x],
                    ),
            decreases 64 - s,
        {
            let base: usize = s * 4;
            let spr_y: u8 = self.oam[base];
            let spr_index: u8 = self.oam[base + 1];
            let spr_attr: u8 = self.oam[base + 2];
            let spr_x: u8 = self.oam[base + 3];
            let sprite = Sprite::new(spr_x, spr_y, spr_attr, spr_index);
            assert(sprite == sprite_record(p.oam, s as int));
            assert(spr_attr & 3 <= 3) by (bit_vector);

            let ghost pix_before = frame.pix();
            if sprite.is_visible() {
                let ctrl: u8 = self.registers.controller;
                assert(ctrl == p.controller);
                let hit: bool = match Self::render_sprite_8x8(frame, memory, ctrl, sprite) {
                    Ok(h) => h,
                    Err(e) => {
                        proof {
                            assert(false);
                        }
                        return Err(e);
                    },
                };
                if s == 0 && hit {
                    self.registers.status = self.registers.status | 0x40;
                }
            }
            proof {
                assert forall|x: int, y: int| 0 <= x < 256 && 0 <= y < 240 implies #[trigger]
                sprite_layer_done(
                    p,
                    bus,
                    x,
                    y,
                    s as int + 1,
                    frame.pix()[y * 256 + x],
                    old(frame).pix()[y * 256 + x],
                ) by {
                    let c = frame.pix()[y * 256 + x];
                    assert(sprite_layer_done(p, bus, x, y, s as int, pix_before[y * 256 + x], old(
                        frame,
                    ).pix()[y * 256 + x]));
                    if sprite_covers(p, bus, s as int, x, y) {
                        assert(c == spr_pixel_colour(
                            bus,
                            p.controller,
                            sprite_record(p.oam, s as int),
                            x - sprite_record(p.oam, s as int).x,
                            y - sprite_record(p.oam, s as int).y,
                        ));
                        assert(forall|t: int|
                            (s as int) < t && t < s as int + 1 ==> !sprite_covers(p, bus, t, x, y));
                        assert(sprite_layer_pixel(p, bus, x, y, s as int + 1, c));
                        assert(covered_below(p, bus, x, y, s as int + 1));
                    } else {
                        assert(c == pix_before[y * 256 + x]);
                        if covered_below(p, bus, x, y, s as int + 1) {
                            let w = choose|s2: int|
                                0 <= s2 < s as int + 1 && sprite_covers(p, bus, s2, x, y);
                            assert(sprite_covers(p, bus, w, x, y));
                            assert(w < s as int);
                            assert(covered_below(p, bus, x, y, s as int));
                            assert(sprite_layer_pixel(p, bus, x, y, s as int, c));
                            let w2 = choose|s2: int|
                                0 <= s2 < s as int && sprite_covers(p, bus, s2, x, y) && c
                                    == spr_pixel_colour(
                                    bus,
                                    p.controller,
                                    sprite_record(p.oam, s2),
                                    x - sprite_record(p.oam, s2).x,
                                    y - sprite_record(p.oam, s2).y,
                                ) && (forall|t: int|
                                    s2 < t && t < (s as int) ==> !sprite_covers(p, bus, t, x, y));
                            assert(sprite_covers(p, bus, w2, x, y));
                            assert(forall|t: int|
                                w2 < t && t < (s as int) + 1 ==> !sprite_covers(p, bus, t, x, y));
                            assert(sprite_layer_pixel(p, bus, x, y, s as int + 1, c));
                        }
                    }
                }
            }
            s = s + 1;
        }
        Ok(())
    }

    /// Render one full frame: the universal background fill, then the
    /// scrolling tiled background, then the sprites. Every visible pixel
    /// ends up as `frame_pixel_ok` describes, and STATUS gains the
    /// sprite-0-hit flag exactly when sprite 0 drew an opaque pixel.
    pub fn render<F: Frame, M: PpuAddressable>(&mut self, frame: &mut F, memory: &mut M) -> (r:
        Result<(), Error>)
        requires
            old(self)@.wf(),
            old(frame).inv(),
            old(memory).inv(),
        ensures
            final(self)@.wf(),
            final(frame).inv(),
            final(memory).inv(),
            final(memory).bus() == old(memory).bus(),
            old(memory).bus().len() == 0x4000,
            final(frame).pix().len() == 61440,
            r == Ok::<(), Error>(()),
            final(self)@ == (PpuState {
                status: if sprite0_hit(old(self)@, old(memory).bus()) {
                    old(self)@.status | 0x40
                } else {
                    old(self)@.status
                },
                ..old(self)@
            }),
            forall|x: int, y: int|
                0 <= x < 256 && 0 <= y < 240 ==> #[trigger] frame_pixel_ok(
                    old(self)@,
                    old(memory).bus(),
                    x,
                    y,
                    final(frame).pix()[y * 256 + x],
                ),
    {
        let ghost p = old(self)@;
        let ghost bus = old(memory).bus();
        match self.render_universal_background(frame, memory) {
            Ok(()) => {},
            Err(e) => {
                proof {
                    assert(false);
                }
                return Err(e);
            },
        }
        let ghost pix_filled = frame.pix();
        match self.render_background(frame, memory) {
            Ok(()) => {},
            Err(e) => {
                proof {
                    assert(false);
                }
                return Err(e);
            },
        }
        let ghost pix_bg = frame.pix();
        match self.render_sprites_8x8(frame, memory) {
            Ok(()) => {},
            Err(e) => {
                proof {
                    assert(false);
                }
                return Err(e);
            },
        }
        proof {
            assert forall|x: int, y: int| 0 <= x < 256 && 0 <= y < 240 implies #[trigger]
            frame_pixel_ok(p, bus, x, y, frame.pix()[y * 256 + x]) by {
                let c = frame.pix()[y * 256 + x];
                assert(pix_filled[y * 256 + x] == bus[0x3f00]);
                assert(pix_bg[y * 256 + x] == (if bg_pixel(p, bus, x, y) != 0 {
                    bg_pixel_colour(p, bus, x, y)
                } else {
                    pix_filled[y * 256 + x]
                }));
                assert(sprite_layer_done(p, bus, x, y, 64, c, pix_bg[y * 256 + x]));
            }
        }
        Ok(())
    }
}

} // verus!
