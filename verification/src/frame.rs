//! The frame sink the renderer draws into.

use vstd::prelude::*;

verus! {

/// Width of the visible frame in pixels.
pub const DISPLAY_WIDTH: usize = 256;

/// Height of the visible frame in pixels.
pub const DISPLAY_HEIGHT: usize = 240;

/// Number of colour indices in one frame.
pub const NUM_PIXELS: usize = 61440;

/// A sink for one frame of colour indices.
///
/// The model is the sequence of `256 * 240` colour indices in row-major
/// order. A write outside the visible area is accepted and ignored, so the
/// sprite renderer may hand over unclipped coordinates.
pub trait Frame: Sized {
    /// The colour index currently held at each visible pixel, row-major.
    spec fn pix(&self) -> Seq<u8>;

    /// Well-formedness of the implementor's backing storage.
    spec fn inv(&self) -> bool;

    /// A well-formed frame models every visible pixel.
    proof fn pix_wf(&self)
        requires
            self.inv(),
        ensures
            self.pix().len() == 61440,
    ;

    fn set_pixel(&mut self, x: usize, y: usize, colour: u8)
        requires
            old(self).inv(),
        ensures
            final(self).inv(),
            old(self).pix().len() == 61440,
            x < 256 && y < 240 ==> final(self).pix() == old(self).pix().update(
                y * 256 + x,
                colour,
            ),
            !(x < 256 && y < 240) ==> final(self).pix() == old(self).pix(),
    ;
}

/// An in-memory frame: one byte per pixel, row-major.
pub struct FrameBuffer {
    mem: Vec<u8>,
}

impl View for FrameBuffer {
    type V = Seq<u8>;

    closed spec fn view(&self) -> Seq<u8> {
        self.mem@
    }
}

impl FrameBuffer {
    /// A frame filled with colour index 0.
    pub fn new() -> (r: FrameBuffer)
        ensures
            r.inv(),
            r@ == Seq::new(61440, |i: int| 0u8),
    {
        let mem = vec![0u8; NUM_PIXELS];
        let r = FrameBuffer { mem };
        proof {
            assert(r@ =~= Seq::new(61440, |i: int| 0u8));
        }
        r
    }

    /// The colour index at a visible pixel.
    pub fn get_pixel(&self, x: usize, y: usize) -> (r: u8)
        requires
            self.inv(),
            x < 256,
            y < 240,
        ensures
            r == self@[y * 256 + x],
    {
        self.mem[y * 256 + x]
    }
}

impl Frame for FrameBuffer {
    open spec fn pix(&self) -> Seq<u8> {
        self@
    }

    open spec fn inv(&self) -> bool {
        self@.len() == 61440
    }

    proof fn pix_wf(&self) {
    }

    fn set_pixel(&mut self, x: usize, y: usize, colour: u8) {
        if x < 256 && y < 240 {
            self.mem[y * 256 + x] = colour;
        }
    }
}

} // verus!
