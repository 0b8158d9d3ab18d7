use vstd::prelude::*;

use crate::error::ConvertError;

verus! {

/// Bytes of sample data per pixel: 8-bit RGB, row-major, no row padding.
/// This layout is fixed for the whole pipeline; both sides of the trust
/// boundary must agree on it.
pub const CHANNELS: usize = 3;

/// The mathematical value of one rendered page: its pixel dimensions and
/// its raw sample bytes.
pub ghost struct PageView {
    pub width: nat,
    pub height: nat,
    pub pixels: Seq<u8>,
}

impl PageView {
    /// A page is well formed when both dimensions are positive and fit the
    /// wire header, and the sample buffer holds exactly one byte per
    /// channel of every pixel.
    pub open spec fn wf(self) -> bool {
        &&& 0 < self.width <= u16::MAX
        &&& 0 < self.height <= u16::MAX
        &&& self.pixels.len() == self.width * self.height * (CHANNELS as nat)
    }
}

/// The payload of a page whose dimensions fit the wire header is far
/// smaller than what a 64-bit count can hold.
pub proof fn lemma_payload_bound(w: nat, h: nat)
    requires
        w <= u16::MAX,
        h <= u16::MAX,
    ensures
        w * h * (CHANNELS as nat) <= 65535 * 65535 * 3,
{
    assert(w * h * 3 <= 65535 * 65535 * 3) by (nonlinear_arith)
        requires
            w <= 65535,
            h <= 65535,
    ;
}

/// One rendered page: pixel dimensions and raw sample bytes. A value of
/// this type is only ever produced by validated construction or validated
/// decoding, so its buffer length always agrees with its dimensions.
pub struct PageData {
    pub width: u16,
    pub height: u16,
    pub pixels: Vec<u8>,
}

impl View for PageData {
    type V = PageView;

    open spec fn view(&self) -> PageView {
        PageView {
            width: self.width as nat,
            height: self.height as nat,
            pixels: self.pixels@,
        }
    }
}

impl PageData {
    pub open spec fn wf(self) -> bool {
        self@.wf()
    }

    /// Validated construction: rejects a zero dimension, then a sample
    /// buffer whose length disagrees with the dimensions; accepts exactly
    /// the well-formed pages.
    pub fn new(width: u16, height: u16, pixels: Vec<u8>) -> (r: Result<PageData, ConvertError>)
        ensures
            match r {
                Ok(p) => {
                    &&& p@ == (PageView {
                        width: width as nat,
                        height: height as nat,
                        pixels: pixels@,
                    })
                    &&& p.wf()
                },
                Err(e) => match e {
                    ConvertError::InvalidDimensions => width == 0 || height == 0,
                    ConvertError::SizeMismatch => {
                        &&& width > 0
                        &&& height > 0
                        &&& pixels@.len() != width as nat * height as nat * (CHANNELS as nat)
                    },
                    _ => false,
                },
            },
            r is Ok <==> {
                &&& width > 0
                &&& height > 0
                &&& pixels@.len() == width as nat * height as nat * (CHANNELS as nat)
            },
    {
        if width == 0 || height == 0 {
            return Err(ConvertError::InvalidDimensions);
        }
        proof {
            lemma_payload_bound(width as nat, height as nat);
        }
        let need: u64 = (width as u64) * (height as u64) * (CHANNELS as u64);
        if (pixels.len() as u64) != need {
            return Err(ConvertError::SizeMismatch);
        }
        Ok(PageData { width, height, pixels })
    }
}

} // verus!
