//! The grayscale density field that the sampler reads, and the tools that rewrite it.
use vstd::prelude::*;

use crate::dithering::DitherComputeError;

verus! {

#[verifier::external_type_specification]
#[verifier::external_body]
pub struct ExDynamicImage(image::DynamicImage);

/// The width and height of a decoded image.
pub uninterp spec fn luma_size_of(img: image::DynamicImage) -> (u32, u32);

/// Whether a decoded image stores 32-bit float samples (the `ImageRgb32F` and
/// `ImageRgba32F` layouts).
pub uninterp spec fn has_float_samples(img: image::DynamicImage) -> bool;

/// Relies on image's `DynamicImage::into_luma8`, which turns a pixel layout into one 8-bit
/// luma sample per pixel and keeps the size, and on `ImageBuffer::dimensions` and
/// `ImageBuffer::into_raw`, which hand out that size and the samples row by row. An image
/// buffer always holds at least `width * height` samples of one channel.
/// Images with 32-bit float samples are refused (`None`) and not converted: their
/// conversion panics on a NaN sample.
#[verifier::external_body]
fn luma8_samples(img: image::DynamicImage) -> (r: Option<(u32, u32, Vec<u8>)>)
    ensures
        r is None <==> has_float_samples(img),
        r matches Some(t) ==> (t.0, t.1) == luma_size_of(img) && t.2@.len() >= t.0 as int
            * t.1 as int,
{
    match img {
        image::DynamicImage::ImageRgb32F(_) => None,
        image::DynamicImage::ImageRgba32F(_) => None,
        other => {
            let luma = other.into_luma8();
            let (width, height) = luma.dimensions();
            Some((width, height, luma.into_raw()))
        },
    }
}

/// A snapshot of a single-channel intensity image, stored row by row:
/// the sample of pixel `(x, y)` is `samples[y * width + x]`.
#[derive(Clone, Debug)]
pub struct DensityField {
    pub width: u32,
    pub height: u32,
    pub samples: Vec<u8>,
}

impl DensityField {
    /// The field has at least one pixel and a sample for each of them.
    pub open spec fn wf(&self) -> bool {
        &&& self.width > 0
        &&& self.height > 0
        &&& self.samples@.len() >= self.width as int * self.height as int
    }

    /// The intensity of pixel `(x, y)`.
    pub open spec fn intensity(&self, x: int, y: int) -> u8 {
        self.samples@[y * self.width as int + x]
    }

    /// Every pixel of the field has intensity `v`.
    pub open spec fn is_uniform(&self, v: u8) -> bool {
        forall|x: int, y: int|
            0 <= x < self.width && 0 <= y < self.height ==> #[trigger] self.intensity(x, y) == v
    }

    /// Reads `samples` as a `width` by `height` luma image; fails with `ImageFormat` when the
    /// image has no pixel or `samples` is too short for it.
    pub fn from_luma(width: u32, height: u32, samples: Vec<u8>) -> (r: Result<
        DensityField,
        DitherComputeError,
    >)
        ensures
            r.is_ok() <==> (width > 0 && height > 0 && samples@.len() >= width as int
                * height as int),
            r matches Ok(f) ==> f.wf() && f.width == width && f.height == height && f.samples@
                == samples@,
            r matches Err(e) ==> e == DitherComputeError::ImageFormat,
    {
        proof {
            crate::arith::lemma_mul_le(width as int, height as int, u32::MAX as int, u32::MAX as int);
        }
        if width == 0 || height == 0 || (samples.len() as u128) < (width as u128) * (
        height as u128) {
            Err(DitherComputeError::ImageFormat)
        } else {
            Ok(DensityField { width, height, samples })
        }
    }

    /// Converts a decoded image with integer samples to luma and reads it as a field of the
    /// same size; fails with `ImageFormat` when the image has no pixel or stores float
    /// samples.
    pub fn from_image(img: image::DynamicImage) -> (r: Result<DensityField, DitherComputeError>)
        ensures
            r is Ok <==> (!has_float_samples(img) && luma_size_of(img).0 > 0 && luma_size_of(
                img,
            ).1 > 0),
            r matches Ok(f) ==> f.wf() && (f.width, f.height) == luma_size_of(img),
            r matches Err(e) ==> e == DitherComputeError::ImageFormat,
    {
        match luma8_samples(img) {
            Some((width, height, samples)) => DensityField::from_luma(width, height, samples),
            None => Err(DitherComputeError::ImageFormat),
        }
    }

    /// The intensity of pixel `(x, y)`.
    pub fn intensity_at(&self, x: u32, y: u32) -> (v: u8)
        requires
            self.wf(),
            x < self.width,
            y < self.height,
        ensures
            v == self.intensity(x as int, y as int),
    {
        let n = self.samples.len();
        proof {
            crate::arith::lemma_row_major_index(
                x as int,
                y as int,
                self.width as int,
                self.height as int,
            );
            assert((y as int) * (self.width as int) + (x as int) < n);
        }
        self.samples[(y as usize) * (self.width as usize) + (x as usize)]
    }

    /// Sets every sample to `v`, keeping the size.
    fn paint_all(&mut self, v: u8)
        ensures
            final(self).width == old(self).width,
            final(self).height == old(self).height,
            final(self).samples@.len() == old(self).samples@.len(),
            forall|k: int| 0 <= k < final(self).samples@.len() ==> final(self).samples@[k] == v,
    {
        let n = self.samples.len();
        let mut k: usize = 0;
        while k < n
            invariant
                k <= n,
                n == self.samples@.len(),
                self.width == old(self).width,
                self.height == old(self).height,
                n == old(self).samples@.len(),
                forall|t: int| 0 <= t < k ==> self.samples@[t] == v,
            decreases n - k,
        {
            self.samples.set(k, v);
            k = k + 1;
        }
    }
}

/// Lemma: a field whose every sample is `v` is uniform.
proof fn lemma_all_samples_uniform(f: &DensityField, v: u8)
    requires
        f.wf(),
        forall|k: int| 0 <= k < f.samples@.len() ==> f.samples@[k] == v,
    ensures
        f.is_uniform(v),
{
    assert forall|x: int, y: int| 0 <= x < f.width && 0 <= y < f.height implies #[trigger] f.intensity(
        x,
        y,
    ) == v by {
        crate::arith::lemma_row_major_index(x, y, f.width as int, f.height as int);
    }
}

/// Clears a density field: every pixel becomes black, so no instance grows anywhere.
pub struct Eraser;

impl Eraser {
    /// Sets every sample of the field to 0, keeping its size.
    pub fn erase(field: &mut DensityField)
        ensures
            old(field).wf() ==> final(field).wf() && final(field).is_uniform(0),
            final(field).width == old(field).width,
            final(field).height == old(field).height,
            final(field).samples@.len() == old(field).samples@.len(),
            forall|k: int|
                0 <= k < final(field).samples@.len() ==> final(field).samples@[k] == 0,
    {
        field.paint_all(0);
        proof {
            if field.wf() {
                lemma_all_samples_uniform(&*field, 0);
            }
        }
    }
}

/// Fills a density field: every pixel becomes white, so instances grow everywhere.
pub struct Filler;

impl Filler {
    /// Sets every sample of the field to 255, keeping its size.
    pub fn fill(field: &mut DensityField)
        ensures
            old(field).wf() ==> final(field).wf() && final(field).is_uniform(255),
            final(field).width == old(field).width,
            final(field).height == old(field).height,
            final(field).samples@.len() == old(field).samples@.len(),
            forall|k: int|
                0 <= k < final(field).samples@.len() ==> final(field).samples@[k] == 255,
    {
        field.paint_all(255);
        proof {
            if field.wf() {
                lemma_all_samples_uniform(&*field, 255);
            }
        }
    }
}

} // verus!
