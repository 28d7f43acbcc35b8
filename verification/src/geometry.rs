//! Pixel-addressed rectangles and their byte-aligned counterparts.
//!
//! The controller addresses its RAM in byte columns of 8 horizontal pixels,
//! so a caller-facing [`NormalRectangle`] (pixel units) is converted into an
//! [`EightSizedRectangle`] whose `width` counts whole bytes. The conversion
//! is lossy: the original pixel width is not retained.

use vstd::prelude::*;

verus! {

/// Number of byte columns needed for `width` pixels: at least one byte,
/// otherwise the pixel width divided by eight, rounded up.
pub open spec fn byte_width_of(width: nat) -> nat {
    if width == 0 {
        1
    } else {
        (width + 7) / 8
    }
}

/// A rectangle in pixel units, as callers describe regions.
///
/// A `width` or `height` of zero denotes an empty region; draw operations
/// on an empty region are no-ops.
#[derive(Debug, Default, Copy, Clone, Eq, PartialEq, Structural)]
pub struct NormalRectangle {
    pub x: u16,
    pub y: u16,
    pub width: u16,
    pub height: u16,
}

impl NormalRectangle {
    pub fn new(x: u16, y: u16, width: u16, height: u16) -> (r: Self)
        ensures
            r.x == x,
            r.y == y,
            r.width == width,
            r.height == height,
    {
        Self { x, y, width, height }
    }

    /// The rectangle's fields widened to `usize`, in x, y, width, height order.
    pub fn xywh(&self) -> (r: (usize, usize, usize, usize))
        ensures
            r.0 == self.x,
            r.1 == self.y,
            r.2 == self.width,
            r.3 == self.height,
    {
        (
            self.x as usize,
            self.y as usize,
            self.width as usize,
            self.height as usize,
        )
    }
}

/// A rectangle whose `width` is expressed in whole bytes (8 pixels each).
///
/// `x` is interpreted by the controller as a byte-column offset, not a pixel
/// offset: callers must pre-align `x` to byte boundaries themselves.
#[derive(Debug, Default, Copy, Clone, Eq, PartialEq, Structural)]
pub struct EightSizedRectangle {
    pub x: u16,
    pub y: u16,
    pub width: u16,
    pub height: u16,
}

impl EightSizedRectangle {
    pub fn new(x: u16, y: u16, width: u16, height: u16) -> (r: Self)
        ensures
            r.x == x,
            r.y == y,
            r.width == width,
            r.height == height,
    {
        Self { x, y, width, height }
    }
}

/// The byte-aligned rectangle a pixel rectangle maps to: `x`, `y` and
/// `height` carried through, `width` divided into byte columns.
pub open spec fn byte_rect_of(rect: NormalRectangle) -> EightSizedRectangle {
    EightSizedRectangle {
        x: rect.x,
        y: rect.y,
        width: byte_width_of(rect.width as nat) as u16,
        height: rect.height,
    }
}

impl vstd::std_specs::convert::FromSpecImpl<NormalRectangle> for EightSizedRectangle {
    open spec fn obeys_from_spec() -> bool {
        true
    }

    open spec fn from_spec(rect: NormalRectangle) -> Self {
        byte_rect_of(rect)
    }
}

impl From<NormalRectangle> for EightSizedRectangle {
    fn from(rect: NormalRectangle) -> (r: Self) {
        let NormalRectangle { x, y, width, height } = rect;

        proof {
            assert(width >> 3u16 == width / 8) by (bit_vector);
        }

        let m: u16 = width >> 3u16;
        let byte_width: u16 = if m == 0 {
            1
        } else if width % 8 == 0 {
            m
        } else {
            m + 1
        };

        assert(byte_width == byte_width_of(width as nat));

        Self { x, y, width: byte_width, height }
    }
}

/// For every pixel width, the byte width is the larger of one and the
/// pixel width divided by eight, rounded up.
pub proof fn lemma_byte_width_is_max_of_one_and_ceil(width: nat)
    ensures
        byte_width_of(width) == vstd::math::max(1, ((width + 7) / 8) as int),
{
}

/// The byte width is at least one, and canvases up to 2048 pixels wide
/// stay within the controller's 256 byte columns.
pub proof fn lemma_byte_width_bounds(width: nat)
    ensures
        1 <= byte_width_of(width),
        width <= 2048 ==> byte_width_of(width) <= 256,
        width <= 65535 ==> byte_width_of(width) <= 8192,
{
    if width > 0 {
        let w = width as int;
        assert(1 <= (w + 7) / 8) by (nonlinear_arith)
            requires
                1 <= w;
        if width <= 2048 {
            assert((w + 7) / 8 <= 256) by (nonlinear_arith)
                requires
                    1 <= w <= 2048;
        }
        if width <= 65535 {
            assert((w + 7) / 8 <= 8192) by (nonlinear_arith)
                requires
                    1 <= w <= 65535;
        }
    }
}

} // verus!
