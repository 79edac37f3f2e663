//! Pixel grids: the decoded colour image that goes in and the single-channel
//! image that comes out, both as plain row-major sample vectors.

use vstd::prelude::*;

verus! {

/// The mathematical content of an image: its dimensions and its samples,
/// row by row, the channels of a pixel side by side.
pub struct PixelGrid {
    pub width: int,
    pub height: int,
    pub samples: Seq<u8>,
}

/// The opaque four-channel samples of a three-channel sample sequence:
/// red, green and blue carried over, alpha 255.
pub open spec fn with_opaque_alpha(rgb: Seq<u8>) -> Seq<u8> {
    Seq::new(
        (rgb.len() / 3 * 4) as nat,
        |k: int|
            if k % 4 == 3 {
                255u8
            } else {
                rgb[k / 4 * 3 + k % 4]
            },
    )
}

fn pixel_count(width: u32, height: u32) -> (pixels: u64)
    ensures
        pixels == width * height,
{
    proof {
        assert(width * height <= 0xFFFF_FFFF * 0xFFFF_FFFF) by (nonlinear_arith)
            requires
                0 <= width <= 0xFFFF_FFFF,
                0 <= height <= 0xFFFF_FFFF,
        ;
    }
    (width as u64) * (height as u64)
}

/// A decoded colour image: `width`×`height` pixels of four 8-bit channels.
pub struct SourceImage {
    width: u32,
    height: u32,
    data: Vec<u8>,
}

impl View for SourceImage {
    type V = PixelGrid;

    closed spec fn view(&self) -> PixelGrid {
        PixelGrid { width: self.width as int, height: self.height as int, samples: self.data@ }
    }
}

impl SourceImage {
    #[verifier::type_invariant]
    spec fn well_formed(self) -> bool {
        self.data@.len() == self.width * self.height * 4
    }

    /// An image over four-channel samples. `None` unless `data` holds
    /// exactly four samples for each of the `width * height` pixels.
    pub fn from_rgba(width: u32, height: u32, data: Vec<u8>) -> (image: Option<SourceImage>)
        ensures
            image is Some <==> data@.len() == width * height * 4,
            image matches Some(img) ==> img@ == (PixelGrid {
                width: width as int,
                height: height as int,
                samples: data@,
            }),
    {
        let pixels: u64 = pixel_count(width, height);
        let len: usize = data.len();
        if pixels > (usize::MAX / 4) as u64 {
            return None;
        }
        if len as u64 != 4 * pixels {
            return None;
        }
        Some(SourceImage { width, height, data })
    }

    /// An image over three-channel samples, each pixel made opaque. `None`
    /// unless `data` holds exactly three samples for each pixel and the
    /// four-channel image fits in memory.
    pub fn from_rgb(width: u32, height: u32, data: Vec<u8>) -> (image: Option<SourceImage>)
        ensures
            image is Some <==> data@.len() == width * height * 3 && width * height * 4
                <= usize::MAX,
            image matches Some(img) ==> img@ == (PixelGrid {
                width: width as int,
                height: height as int,
                samples: with_opaque_alpha(data@),
            }),
    {
        let pixels: u64 = pixel_count(width, height);
        if pixels > (usize::MAX / 4) as u64 {
            return None;
        }
        if data.len() as u64 != 3 * pixels {
            return None;
        }
        let count: usize = pixels as usize;
        let mut rgba: Vec<u8> = Vec::new();
        let mut p: usize = 0;
        while p < count
            invariant
                p <= count,
                4 * count <= usize::MAX,
                data@.len() == 3 * count,
                rgba@.len() == 4 * p,
                forall|k: int|
                    0 <= k < 4 * p ==> #[trigger] rgba@[k] == with_opaque_alpha(data@)[k],
            decreases count - p,
        {
            rgba.push(data[3 * p]);
            rgba.push(data[3 * p + 1]);
            rgba.push(data[3 * p + 2]);
            rgba.push(255);
            p += 1;
        }
        proof {
            assert(rgba@ =~= with_opaque_alpha(data@));
        }
        Some(SourceImage { width, height, data: rgba })
    }

    /// The number of pixel columns.
    pub fn width(&self) -> (w: u32)
        ensures
            w == self@.width,
    {
        self.width
    }

    /// The number of pixel rows.
    pub fn height(&self) -> (h: u32)
        ensures
            h == self@.height,
    {
        self.height
    }

    /// The samples, row by row, four to a pixel.
    pub fn samples(&self) -> (data: &Vec<u8>)
        ensures
            data@ == self@.samples,
            data@.len() == self@.width * self@.height * 4,
    {
        proof {
            use_type_invariant(self);
        }
        &self.data
    }
}

/// A single-channel image: `width`×`height` pixels of one 8-bit sample.
pub struct OutputImage {
    width: u32,
    height: u32,
    data: Vec<u8>,
}

impl View for OutputImage {
    type V = PixelGrid;

    closed spec fn view(&self) -> PixelGrid {
        PixelGrid { width: self.width as int, height: self.height as int, samples: self.data@ }
    }
}

impl OutputImage {
    #[verifier::type_invariant]
    spec fn well_formed(self) -> bool {
        self.data@.len() == self.width * self.height
    }

    /// An image over single-channel samples. `None` unless `data` holds
    /// exactly one sample for each of the `width * height` pixels.
    pub fn from_luma(width: u32, height: u32, data: Vec<u8>) -> (image: Option<OutputImage>)
        ensures
            image is Some <==> data@.len() == width * height,
            image matches Some(img) ==> img@ == (PixelGrid {
                width: width as int,
                height: height as int,
                samples: data@,
            }),
    {
        let pixels: u64 = pixel_count(width, height);
        if data.len() as u64 != pixels {
            return None;
        }
        Some(OutputImage { width, height, data })
    }

    /// The number of pixel columns.
    pub fn width(&self) -> (w: u32)
        ensures
            w == self@.width,
    {
        self.width
    }

    /// The number of pixel rows.
    pub fn height(&self) -> (h: u32)
        ensures
            h == self@.height,
    {
        self.height
    }

    /// The samples, row by row, one to a pixel.
    pub fn samples(&self) -> (data: &Vec<u8>)
        ensures
            data@ == self@.samples,
            data@.len() == self@.width * self@.height,
    {
        proof {
            use_type_invariant(self);
        }
        &self.data
    }

    /// The samples, handed over.
    pub fn into_samples(self) -> (data: Vec<u8>)
        ensures
            data@ == self@.samples,
            data@.len() == self@.width * self@.height,
    {
        proof {
            use_type_invariant(&self);
        }
        self.data
    }
}

} // verus!
