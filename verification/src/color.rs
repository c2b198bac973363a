use vstd::prelude::*;

verus! {

/// One screen pixel, already reduced to its red, green and blue channels.
#[derive(Clone, Copy, PartialEq, Eq, Structural, Debug)]
pub struct Pixel {
    pub r: u8,
    pub g: u8,
    pub b: u8,
}

/// A captured frame: the monitor's pixel buffer in capture order, together
/// with the geometry it was captured at. Owned by a single cycle and
/// discarded after aggregation.
#[derive(Debug)]
pub struct Frame {
    pub width: u32,
    pub height: u32,
    pub pixels: Vec<Pixel>,
}

impl Frame {
    /// A frame is well formed when its buffer holds exactly one pixel per
    /// point of its geometry.
    pub open spec fn wf(self) -> bool {
        self.pixels@.len() == self.width as int * self.height as int
    }

    /// Red channel of every pixel, in capture order.
    pub open spec fn reds(self) -> Seq<u8> {
        self.pixels@.map_values(|p: Pixel| p.r)
    }

    /// Green channel of every pixel, in capture order.
    pub open spec fn greens(self) -> Seq<u8> {
        self.pixels@.map_values(|p: Pixel| p.g)
    }

    /// Blue channel of every pixel, in capture order.
    pub open spec fn blues(self) -> Seq<u8> {
        self.pixels@.map_values(|p: Pixel| p.b)
    }

    /// Checked constructor: accepts the buffer only when it matches the
    /// claimed geometry, so every `Frame` in circulation is well formed.
    pub fn from_pixels(width: u32, height: u32, pixels: Vec<Pixel>) -> (r: Option<Frame>)
        ensures
            r is Some <==> pixels@.len() == width as int * height as int,
            r matches Some(f) ==> f.wf() && f.width == width && f.height == height
                && f.pixels@ == pixels@,
    {
        proof {
            assert(width * height <= u32::MAX as int * u32::MAX as int) by (nonlinear_arith)
                requires
                    width <= u32::MAX as int,
                    height <= u32::MAX as int,
            ;
        }
        let expected: u64 = (width as u64) * (height as u64);
        if pixels.len() as u64 == expected {
            Some(Frame { width, height, pixels })
        } else {
            None
        }
    }
}

/// One cycle's mean color: per-channel averages of the sampled pixels.
/// Unclamped, as the averaging scheme can exceed 255 when the stride does
/// not divide the pixel count evenly.
#[derive(Clone, Copy, PartialEq, Eq, Structural, Debug)]
pub struct AggregatedColor {
    pub r: u64,
    pub g: u64,
    pub b: u64,
}

/// The exponentially smoothed color carried across cycles: the loop's only
/// persistent numeric state.
#[derive(Clone, Copy, PartialEq, Eq, Structural, Debug)]
pub struct SmoothedColor {
    pub r: u64,
    pub g: u64,
    pub b: u64,
}

impl SmoothedColor {
    /// The initial state before the first cycle: black, producing a damped
    /// ramp-up on the first armed cycle.
    pub fn black() -> (c: SmoothedColor)
        ensures
            c.r == 0 && c.g == 0 && c.b == 0,
    {
        SmoothedColor { r: 0, g: 0, b: 0 }
    }

    /// The brightness derived from a smoothed color: its largest channel.
    pub open spec fn spec_brightness(self) -> u64 {
        if self.r >= self.g && self.r >= self.b {
            self.r
        } else if self.g >= self.b {
            self.g
        } else {
            self.b
        }
    }

    /// Largest channel, recomputed each cycle and never stored.
    pub fn brightness(&self) -> (m: u64)
        ensures
            m == self.spec_brightness(),
    {
        if self.r >= self.g && self.r >= self.b {
            self.r
        } else if self.g >= self.b {
            self.g
        } else {
            self.b
        }
    }
}

} // verus!
