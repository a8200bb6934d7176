//! The multi-scale raster coordinator: one render request per fixed
//! scale, each request independent, each outcome recorded per scale.

use vstd::prelude::*;
use pdfium_render::prelude::{PdfPage, PdfiumError, PdfRenderConfig, PdfBitmapFormat, PdfColor};
use crate::COORD_LIMIT;

verus! {

#[verifier::external_type_specification]
#[verifier::external_body]
pub struct ExPdfPage<'a>(PdfPage<'a>);

#[verifier::external_type_specification]
#[verifier::external_body]
pub struct ExPdfiumError(PdfiumError);

#[verifier::external_type_specification]
#[verifier::external_body]
pub struct ExDynamicImage(image::DynamicImage);

#[verifier::external_type_specification]
#[verifier::external_body]
pub struct ExImageError(image::ImageError);

/// Why one scale's raster is absent: the rendering engine rejected
/// the render request, or encoding the rendered image failed.
#[derive(Clone, Copy, Debug, PartialEq, Eq, Structural)]
pub enum RasterError {
    Engine,
    Encoding,
}

/// One raster output: the scale it was requested at, in hundredths,
/// and the encoded image buffer, or the per-scale failure.
pub struct PageImage {
    pub scale_hundredths: u64,
    pub buffer: Result<Vec<u8>, RasterError>,
}

/// The fixed ascending scale set, in hundredths.
pub open spec fn scale_set() -> Seq<u64> {
    seq![25u64, 50u64, 100u64, 150u64, 200u64]
}

/// The pixel size of one page dimension at one scale, rounded toward
/// zero.
pub open spec fn target_px(dim: int, scale: int) -> int {
    (dim * scale) / 100
}

/// Both target pixel dimensions at this scale are positive and fit
/// the engine's pixel type.
pub open spec fn target_ok(w: int, h: int, scale: int) -> bool {
    &&& 1 <= target_px(w, scale) <= i32::MAX as int
    &&& 1 <= target_px(h, scale) <= i32::MAX as int
}

/// Computes the pixel size of one page dimension at one scale.
pub fn target_dim(dim: i64, scale: u64) -> (t: i64)
    requires
        0 <= dim <= COORD_LIMIT,
        scale <= 200,
    ensures
        t == target_px(dim as int, scale as int),
{
    proof {
        let d = dim as int;
        let sc = scale as int;
        assert(0 <= d * sc && d * sc <= 200_000_000_000int) by (nonlinear_arith)
            requires
                0 <= d <= 1_000_000_000,
                0 <= sc <= 200,
        ;
    }
    dim * (scale as i64) / 100
}

/// The fixed scale set is strictly ascending.
pub proof fn lemma_scales_ascending()
    ensures
        forall|i: int, j: int|
            0 <= i < j < scale_set().len() ==> scale_set()[i] < scale_set()[j],
{
}

/// Relies on pdfium's PdfPage::render_with_config and
/// PdfBitmap::as_image: renders the page at the given pixel size over
/// white with the given background alpha and reversed byte order, and
/// converts the bitmap to an RGBA image.
#[verifier::external_body]
fn render_page(page: &PdfPage<'_>, width: i32, height: i32, background_alpha: u8) -> (r: Result<
    image::DynamicImage,
    PdfiumError,
>)
    requires
        1 <= width,
        1 <= height,
{
    let config = PdfRenderConfig::new()
        .set_format(PdfBitmapFormat::BGRA)
        .set_reverse_byte_order(true)
        .set_clear_color(PdfColor::WHITE.with_alpha(background_alpha))
        .set_target_size(width, height);
    match page.render_with_config(&config) {
        Ok(bitmap) => bitmap.as_image(),
        Err(e) => Err(e),
    }
}

/// Relies on image's DynamicImage::into_rgba8 and
/// ImageBuffer::write_to: encodes the rendered image losslessly as
/// PNG bytes.
#[verifier::external_body]
fn encode_png(img: image::DynamicImage) -> (r: Result<Vec<u8>, image::ImageError>) {
    let rgba = img.into_rgba8();
    let mut buffer: Vec<u8> = Vec::new();
    match rgba.write_to(&mut std::io::Cursor::new(&mut buffer), image::ImageFormat::Png) {
        Ok(()) => Ok(buffer),
        Err(e) => Err(e),
    }
}

/// Requests one raster of the page per fixed scale, over a white or
/// fully transparent background, and collects one outcome per scale,
/// in ascending scale order.  A failure at one scale is recorded for
/// that scale alone and does not prevent the other scales.
pub fn rasterize_page(
    page: &PdfPage<'_>,
    page_width: i64,
    page_height: i64,
    transparent: bool,
) -> (images: Vec<PageImage>)
    requires
        0 <= page_width <= COORD_LIMIT,
        0 <= page_height <= COORD_LIMIT,
    ensures
        images@.len() == scale_set().len(),
        forall|i: int|
            0 <= i < images@.len() ==> #[trigger] images@[i].scale_hundredths == scale_set()[i],
        forall|i: int|
            0 <= i < images@.len() && !target_ok(
                page_width as int,
                page_height as int,
                scale_set()[i] as int,
            ) ==> #[trigger] images@[i].buffer == Err::<Vec<u8>, RasterError>(RasterError::Engine),
{
    let scales: Vec<u64> = vec![25, 50, 100, 150, 200];
    proof {
        assert(scales@ =~= scale_set());
    }
    let mut images: Vec<PageImage> = Vec::new();
    let n = scales.len();
    for i in 0..n
        invariant
            n == 5,
            scales@ == scale_set(),
            0 <= page_width <= COORD_LIMIT,
            0 <= page_height <= COORD_LIMIT,
            images@.len() == i,
            forall|k: int|
                0 <= k < i as int ==> #[trigger] images@[k].scale_hundredths == scale_set()[k],
            forall|k: int|
                0 <= k < i as int && !target_ok(
                    page_width as int,
                    page_height as int,
                    scale_set()[k] as int,
                ) ==> #[trigger] images@[k].buffer == Err::<Vec<u8>, RasterError>(
                    RasterError::Engine,
                ),
    {
        let s = scales[i];
        assert(s <= 200);
        let tw = target_dim(page_width, s);
        let th = target_dim(page_height, s);
        let buffer: Result<Vec<u8>, RasterError> = if 1 <= tw && tw <= i32::MAX as i64 && 1 <= th
            && th <= i32::MAX as i64 {
            let alpha: u8 = if transparent {
                0
            } else {
                255
            };
            match render_page(page, tw as i32, th as i32, alpha) {
                Ok(img) => match encode_png(img) {
                    Ok(bytes) => Ok(bytes),
                    Err(_) => Err(RasterError::Encoding),
                },
                Err(_) => Err(RasterError::Engine),
            }
        } else {
            Err(RasterError::Engine)
        };
        images.push(PageImage { scale_hundredths: s, buffer });
    }
    images
}

} // verus!
