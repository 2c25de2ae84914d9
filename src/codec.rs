//! Decoding, resizing and encoding through the `image` crate.

use vstd::prelude::*;
use crate::dimensions::{dimensions_resolvable, get_resize_dimensions, resize_dimensions};
use crate::format::{ImageFormat, ImageOutputFormat};
use crate::service::FetchError;
use image::{DynamicImage, ImageError};

verus! {

#[verifier::external_type_specification]
#[verifier::external_body]
pub struct ExDynamicImage(DynamicImage);

#[verifier::external_type_specification]
#[verifier::external_body]
pub struct ExImageError(ImageError);

/// A resampling filter. Nearest-neighbour sampling uses only exact float operations, so its
/// result is the same on every platform.
#[derive(Clone, Copy, Debug, PartialEq, Eq, Structural)]
pub enum ResizeFilter {
    Nearest,
}

/// The filter every resize uses: speed over quality.
pub const RESIZE_FILTER: ResizeFilter = ResizeFilter::Nearest;

/// The raster that `data` decodes to in `format`, if it is a valid image.
pub uninterp spec fn decoded(data: Seq<u8>, format: ImageFormat) -> Option<DynamicImage>;

/// The width and height of a raster.
pub uninterp spec fn raster_size(img: DynamicImage) -> (u32, u32);

/// The raster resampled to exactly the given size.
pub uninterp spec fn resized(img: DynamicImage, width: u32, height: u32, filter: ResizeFilter) -> DynamicImage;

/// The bytes a raster encodes to, if the encoder accepts it.
pub uninterp spec fn encoded(img: DynamicImage, format: ImageOutputFormat) -> Option<Seq<u8>>;

/// A raster of this size, at up to 16 bytes per pixel, has a byte length that fits `isize`.
pub open spec fn fits_raster(width: u32, height: u32) -> bool {
    16 * (width as int) * (height as int) <= isize::MAX as int
}

/// What a resize of `data` to the requested sides yields.
pub open spec fn resize_result(
    data: Seq<u8>,
    width: Option<u32>,
    height: Option<u32>,
    read_format: ImageFormat,
    write_format: ImageOutputFormat,
) -> Result<Seq<u8>, FetchError> {
    match decoded(data, read_format) {
        None => Err(FetchError::DecodeFailure),
        Some(img) => {
            let size = raster_size(img);
            if size.0 == 0 || size.1 == 0 {
                Err(FetchError::DecodeFailure)
            } else {
                let target = resize_dimensions(width, height, size);
                if !fits_raster(size.0, target.1) || !fits_raster(target.0, target.1) {
                    Err(FetchError::TooLarge)
                } else {
                    match encoded(resized(img, target.0, target.1, RESIZE_FILTER), write_format) {
                        Some(bytes) => Ok(bytes),
                        None => Err(FetchError::NotFound),
                    }
                }
            }
        },
    }
}

/// Relies on image::load_from_memory_with_format: the outcome depends on the bytes and the
/// format alone (JPEG goes through jpeg-decoder, built with `platform_independent` so that
/// no CPU-specific routine changes the raster).
#[verifier::external_body]
fn decode(data: &[u8], format: ImageFormat) -> (r: Result<DynamicImage, ImageError>)
    ensures
        match r {
            Ok(img) => decoded(data@, format) == Some(img),
            Err(_) => decoded(data@, format) is None,
        },
{
    let f = match format {
        ImageFormat::Jpeg => image::ImageFormat::Jpeg,
        ImageFormat::Png => image::ImageFormat::Png,
        ImageFormat::Ico => image::ImageFormat::Ico,
        ImageFormat::Gif => image::ImageFormat::Gif,
    };
    image::load_from_memory_with_format(data, f)
}

/// Relies on image::GenericImageView::dimensions for DynamicImage: width and height.
#[verifier::external_body]
fn dimensions(img: &DynamicImage) -> (r: (u32, u32))
    ensures
        r == raster_size(*img),
{
    image::GenericImageView::dimensions(img)
}

/// Relies on DynamicImage::resize_exact: a new raster of exactly the given size. It panics
/// when a buffer's length overflows, and reads out of bounds from an empty source.
#[verifier::external_body]
fn resize_exact(img: &DynamicImage, width: u32, height: u32, filter: ResizeFilter) -> (r: DynamicImage)
    requires
        raster_size(*img).0 > 0,
        raster_size(*img).1 > 0,
        fits_raster(raster_size(*img).0, height),
        fits_raster(width, height),
    ensures
        r == resized(*img, width, height, filter),
        raster_size(r) == (width, height),
{
    let f = match filter {
        ResizeFilter::Nearest => image::imageops::FilterType::Nearest,
    };
    img.resize_exact(width, height, f)
}

/// Relies on DynamicImage::write_to into an in-memory buffer: the encoding depends on the
/// raster and the format alone, and every one of these encoders writes a header on success.
#[verifier::external_body]
fn encode(img: &DynamicImage, format: ImageOutputFormat) -> (r: Result<Vec<u8>, ImageError>)
    ensures
        match r {
            Ok(bytes) => encoded(*img, format) == Some(bytes@) && bytes@.len() > 0,
            Err(_) => encoded(*img, format) is None,
        },
{
    let f = match format {
        ImageOutputFormat::Jpeg(q) => image::ImageOutputFormat::Jpeg(q),
        ImageOutputFormat::Png => image::ImageOutputFormat::Png,
        ImageOutputFormat::Ico => image::ImageOutputFormat::Ico,
        ImageOutputFormat::Gif => image::ImageOutputFormat::Gif,
    };
    let mut out = std::io::Cursor::new(Vec::new());
    match img.write_to(&mut out, f) {
        Ok(()) => Ok(out.into_inner()),
        Err(e) => Err(e),
    }
}

fn raster_fits(width: u32, height: u32) -> (r: bool)
    ensures
        r == fits_raster(width, height),
{
    let w = width as u64;
    let h = height as u64;
    assert(w * h <= u64::MAX) by (nonlinear_arith)
        requires
            w <= u32::MAX,
            h <= u32::MAX,
    ;
    let limit = (isize::MAX as u64) / 16;
    let p = w * h;
    assert((p <= limit) == (16 * (w as int) * (h as int) <= isize::MAX as int)) by (nonlinear_arith)
        requires
            p == w * h,
            limit == (isize::MAX as int) / 16,
            isize::MAX as int > 0,
    ;
    p <= limit
}

/// Decodes `image_data`, resizes it to the size the request resolves to with nearest-neighbour
/// sampling, and encodes the result.
pub fn resize_image(
    image_data: &Vec<u8>,
    width: Option<u32>,
    height: Option<u32>,
    read_format: ImageFormat,
    write_format: ImageOutputFormat,
) -> (r: Result<Vec<u8>, FetchError>)
    ensures
        match r {
            Ok(bytes) => resize_result(image_data@, width, height, read_format, write_format)
                == Ok::<Seq<u8>, FetchError>(bytes@),
            Err(e) => resize_result(image_data@, width, height, read_format, write_format)
                == Err::<Seq<u8>, FetchError>(e),
        },
        r is Ok ==> r->Ok_0@.len() > 0,
{
    let img = match decode(image_data.as_slice(), read_format) {
        Ok(img) => img,
        Err(_) => return Err(FetchError::DecodeFailure),
    };
    let size = dimensions(&img);
    if size.0 == 0 || size.1 == 0 {
        return Err(FetchError::DecodeFailure);
    }
    assert(dimensions_resolvable(width, height, size));
    let target = get_resize_dimensions(width, height, size);
    if !raster_fits(size.0, target.1) || !raster_fits(target.0, target.1) {
        return Err(FetchError::TooLarge);
    }
    let resized_image = resize_exact(&img, target.0, target.1, RESIZE_FILTER);
    match encode(&resized_image, write_format) {
        Ok(bytes) => Ok(bytes),
        Err(_) => Err(FetchError::NotFound),
    }
}

} // verus!
