//! The packed monochrome image buffer draws consume.
//!
//! An image pairs a byte-aligned rectangle with its packed pixel bytes —
//! one bit per pixel, eight pixels per byte, MSB first, row-major. The
//! packing itself is produced outside the engine; the engine only reads
//! the rectangle and the bytes, and checks that they agree in size.

use vstd::prelude::*;
use crate::error::{EpdError, EpdResult};
use crate::geometry::{NormalRectangle, EightSizedRectangle, byte_rect_of, byte_width_of};
use crate::value::EpdColor;

verus! {

/// The bytes of a solid-color buffer: `count` copies of the color's fill
/// byte.
pub open spec fn solid_bytes(color: EpdColor, count: nat) -> Seq<u8> {
    Seq::new(count, |i: int| color.fill_byte_spec())
}

/// The interface the drawing facade consumes: a byte rectangle, the packed
/// bytes covering it, and a constructor for solid-color buffers.
pub trait EpdImage: Sized {
    /// The byte rectangle this image covers.
    spec fn rect_spec(&self) -> EightSizedRectangle;

    /// The packed pixel bytes, row-major.
    spec fn bytes_spec(&self) -> Seq<u8>;

    /// The byte rectangle this image covers.
    fn rect(&self) -> (r: EightSizedRectangle)
        ensures
            r == self.rect_spec(),
    ;

    /// The packed pixel bytes.
    fn as_vec(&self) -> (r: &[u8])
        ensures
            r@ == self.bytes_spec(),
    ;

    /// An image covering the byte-aligned form of `rect`, every byte
    /// all-black or all-white. Always succeeds.
    fn data_for_fill(rect: NormalRectangle, color: EpdColor) -> (r: EpdResult<Self>)
        ensures
            r is Ok,
            r matches Ok(img) ==> img.rect_spec() == byte_rect_of(rect) && img.bytes_spec()
                == solid_bytes(
                color,
                (byte_width_of(rect.width as nat) * rect.height) as nat,
            ),
    ;
}

/// A monochrome image holding its packed bytes directly.
#[derive(Debug)]
pub struct EpdMonoColorImage {
    pub rect: EightSizedRectangle,
    pub data: Vec<u8>,
}

impl EpdMonoColorImage {
    /// An image from a byte rectangle and pre-packed bytes. The buffer
    /// must hold exactly one byte per byte column and row of the
    /// rectangle; anything else is rejected, expected count first.
    pub fn new_with_eight(rect: EightSizedRectangle, data: Vec<u8>) -> (r: EpdResult<Self>)
        ensures
            data@.len() == rect.width * rect.height ==> (r matches Ok(img) && img.rect == rect
                && img.data@ == data@),
            data@.len() != rect.width * rect.height ==> (r matches Err(e) && e matches
                EpdError::DataTooLong(expected, actual) && expected == rect.width * rect.height
                && actual == data@.len()),
    {
        proof {
            let w = rect.width as int;
            let h = rect.height as int;
            assert(w * h < 4294967296) by (nonlinear_arith)
                requires
                    0 <= w <= 65535,
                    0 <= h <= 65535;
        }
        let expected: usize = rect.width as usize * rect.height as usize;
        if data.len() != expected {
            return Err(EpdError::DataTooLong(expected, data.len()));
        }
        Ok(Self { rect, data })
    }
}

impl EpdImage for EpdMonoColorImage {
    open spec fn rect_spec(&self) -> EightSizedRectangle {
        self.rect
    }

    open spec fn bytes_spec(&self) -> Seq<u8> {
        self.data@
    }

    fn rect(&self) -> (r: EightSizedRectangle) {
        self.rect
    }

    fn as_vec(&self) -> (r: &[u8]) {
        self.data.as_slice()
    }

    fn data_for_fill(rect: NormalRectangle, color: EpdColor) -> (r: EpdResult<Self>) {
        let byte_rect = EightSizedRectangle::from(rect);
        proof {
            let bw = byte_rect.width as int;
            let h = byte_rect.height as int;
            crate::geometry::lemma_byte_width_bounds(rect.width as nat);
            assert(bw * h < 4294967296) by (nonlinear_arith)
                requires
                    0 <= bw <= 8192,
                    0 <= h <= 65535;
        }
        let count: usize = byte_rect.width as usize * byte_rect.height as usize;
        let fill_b = color.fill_byte();
        let mut data: Vec<u8> = Vec::new();
        let mut i: usize = 0;
        while i < count
            invariant
                i <= count,
                data@.len() == i,
                forall|j: int| 0 <= j < i ==> data@[j] == fill_b,
                fill_b == color.fill_byte_spec(),
            decreases count - i,
        {
            data.push(fill_b);
            i = i + 1;
        }
        proof {
            assert(data@ =~= solid_bytes(
                color,
                (byte_width_of(rect.width as nat) * rect.height) as nat,
            ));
        }
        Ok(Self { rect: byte_rect, data })
    }
}

} // verus!
