//! The logo on the car's bonnet: a picture, drawn once into pixels.
//!
//! The picture is drawn outside this library. The library says at which
//! extents it is to be drawn ([`logo_extents`]), and makes the logo's
//! rectangle of what was drawn ([`new_logo`]).
use crate::car::SCALE;
use crate::error::CarError;
use crate::fixed::Fixed;
use crate::geometry::Point;
use crate::rect::{Rect, Source};
use vstd::prelude::*;

verus! {

/// The largest width and height, in pixels, at which a picture is drawn:
/// a raster of 4096 by 4096 pixels holds 64 MiB, and whoever draws it has
/// to hold it in one piece.
pub const MAX_EXTENT: u32 = 4096;

/// A picture as it was drawn: its own width and height, in whatever unit
/// it is measured, and the bytes of its pixels, row by row, for each pixel
/// its red, green, blue and alpha part.
#[derive(Debug)]
pub struct Picture {
    pub width: Fixed,
    pub height: Fixed,
    pub raster: Vec<u8>,
}

/// The word of a pixel: alpha, red, green and blue, from the top byte down.
pub open spec fn argb_word(r: u8, g: u8, b: u8, a: u8) -> u32 {
    (a * 0x100_0000 + r * 0x1_0000 + g * 0x100 + b) as u32
}

/// The words of the pixels whose red, green, blue and alpha parts follow
/// each other in `bytes`. Bytes left over at the end, fewer than four, are
/// dropped.
pub open spec fn pack_pixels_spec(bytes: Seq<u8>) -> Seq<u32> {
    Seq::new(
        (bytes.len() / 4) as nat,
        |i: int| argb_word(bytes[4 * i], bytes[4 * i + 1], bytes[4 * i + 2], bytes[4 * i + 3]),
    )
}

/// The height at which a picture of the given size is drawn when it is
/// drawn `width` wide: the picture's height over its width, times `width`.
pub open spec fn logo_height_spec(width: Fixed, picture_width: Fixed, picture_height: Fixed) -> Fixed {
    picture_height.div_spec(picture_width).mul_spec(width)
}

/// The number of whole pixels in a length: the length times `SCALE`,
/// fractions dropped.
pub open spec fn pixel_extent_spec(length: Fixed) -> u32 {
    length.mul_spec(Fixed { raw: SCALE }).to_u32_spec()
}

/// The word of a pixel: alpha, red, green and blue, from the top byte down.
pub fn argb(r: u8, g: u8, b: u8, a: u8) -> (w: u32)
    ensures
        w == argb_word(r, g, b, a),
{
    (a as u32) * 0x100_0000 + (r as u32) * 0x1_0000 + (g as u32) * 0x100 + (b as u32)
}

/// Packs pixels given by their red, green, blue and alpha bytes into words.
/// Bytes left over at the end, fewer than four, are dropped.
pub fn pack_pixels(bytes: &[u8]) -> (words: Vec<u32>)
    ensures
        words@ == pack_pixels_spec(bytes@),
{
    let mut words: Vec<u32> = Vec::new();
    let len: usize = bytes.len();
    let n: usize = len / 4;
    let mut i: usize = 0;
    while i < n
        invariant
            len == bytes@.len(),
            n == len / 4,
            i <= n,
            words@ == pack_pixels_spec(bytes@).subrange(0, i as int),
        decreases n - i,
    {
        assert(4 * i + 3 < len);
        let w: u32 = argb(bytes[4 * i], bytes[4 * i + 1], bytes[4 * i + 2], bytes[4 * i + 3]);
        words.push(w);
        i = i + 1;
        assert(words@ =~= pack_pixels_spec(bytes@).subrange(0, i as int));
    }
    assert(words@ =~= pack_pixels_spec(bytes@));
    words
}

/// The height at which a picture of the given size is drawn when it is
/// drawn `width` wide.
pub fn logo_height(width: Fixed, picture_width: Fixed, picture_height: Fixed) -> (r: Fixed)
    ensures
        r == logo_height_spec(width, picture_width, picture_height),
{
    picture_height.div(picture_width).mul(width)
}

/// The number of whole pixels in a length.
pub fn pixel_extent(length: Fixed) -> (r: u32)
    ensures
        r == pixel_extent_spec(length),
{
    length.mul(Fixed::from_raw(SCALE)).to_u32()
}

/// The rectangle that shows a drawn picture: centred at `origin`, upright,
/// painted with the pixels packed from `raster`. Both extents must be
/// positive: otherwise the result is `InvalidDimension`.
pub fn logo_from_raster(origin: Point, width: Fixed, height: Fixed, raster: &[u8]) -> (r: Result<
    Rect,
    CarError,
>)
    ensures
        !(width@ > 0 && height@ > 0) ==> r == Err::<Rect, CarError>(CarError::InvalidDimension),
        width@ > 0 && height@ > 0 ==> r is Ok && is_logo(r->Ok_0, origin, width, height, raster@),
{
    let words: Vec<u32> = pack_pixels(raster);
    Rect::new(origin, width, height, Source::Image(words))
}

/// `logo` is the upright rectangle at `origin` with the given extents,
/// painted with the pixels packed from `raster`.
pub open spec fn is_logo(logo: Rect, origin: Point, width: Fixed, height: Fixed, raster: Seq<u8>) -> bool {
    &&& logo.origin == origin
    &&& logo.width == width
    &&& logo.height == height
    &&& logo.rotation_matrix == crate::linear_algebra::Matrix::eye_spec()
    &&& logo.source matches Source::Image(words) && words@ == pack_pixels_spec(raster)
}

/// The extents at which a picture of the given size is drawn `width` wide:
/// its height in metres, and its width and height in whole pixels.
///
/// The height follows from the picture's own proportions. Where `width` or
/// that height is not positive, there is no rectangle to show the picture:
/// `InvalidDimension`. Where the picture would come out less than a pixel
/// or more than `MAX_EXTENT` pixels wide or high, it cannot be drawn:
/// `AssetLoadError`.
pub open spec fn logo_extents_spec(width: Fixed, picture_width: Fixed, picture_height: Fixed) -> Result<
    (Fixed, u32, u32),
    CarError,
> {
    let height = logo_height_spec(width, picture_width, picture_height);
    let pixel_width = pixel_extent_spec(width);
    let pixel_height = pixel_extent_spec(height);
    if width@ <= 0 || height@ <= 0 {
        Err(CarError::InvalidDimension)
    } else if pixel_width == 0 || pixel_height == 0 || pixel_width > MAX_EXTENT || pixel_height
        > MAX_EXTENT {
        Err(CarError::AssetLoadError)
    } else {
        Ok((height, pixel_width, pixel_height))
    }
}

/// `r` is what [`new_logo`] makes of a picture that is to be shown `width`
/// wide and centred at `origin`. The extents are those of
/// [`logo_extents_spec`], and so are its errors. A raster that does not hold
/// four bytes for each pixel of these extents was not drawn for them:
/// `AssetLoadError`. Otherwise `r` is the upright rectangle of these extents
/// at `origin`, painted with the pixels packed from the raster.
pub open spec fn is_new_logo(
    r: Result<Rect, CarError>,
    origin: Point,
    width: Fixed,
    picture: Picture,
) -> bool {
    match logo_extents_spec(width, picture.width, picture.height) {
        Ok((height, pixel_width, pixel_height)) => {
            if picture.raster@.len() == 4 * pixel_width * pixel_height {
                r is Ok && is_logo(r->Ok_0, origin, width, height, picture.raster@)
            } else {
                r == Err::<Rect, CarError>(CarError::AssetLoadError)
            }
        },
        Err(e) => r == Err::<Rect, CarError>(e),
    }
}

/// The extents at which a picture of the given size is drawn `width` wide;
/// see [`logo_extents_spec`].
pub fn logo_extents(width: Fixed, picture_width: Fixed, picture_height: Fixed) -> (r: Result<
    (Fixed, u32, u32),
    CarError,
>)
    ensures
        r == logo_extents_spec(width, picture_width, picture_height),
{
    let height: Fixed = logo_height(width, picture_width, picture_height);
    let pixel_width: u32 = pixel_extent(width);
    let pixel_height: u32 = pixel_extent(height);
    if !width.is_positive() || !height.is_positive() {
        Err(CarError::InvalidDimension)
    } else if pixel_width == 0 || pixel_height == 0 || pixel_width > MAX_EXTENT || pixel_height
        > MAX_EXTENT {
        Err(CarError::AssetLoadError)
    } else {
        Ok((height, pixel_width, pixel_height))
    }
}

/// Makes the logo of a picture that was drawn for it: `width` wide,
/// centred at `origin`, upright, as high as the picture's proportions ask.
///
/// The result is `InvalidDimension` where `width` or that height is not
/// positive, and `AssetLoadError` where the picture cannot be drawn at these
/// extents or its raster was not drawn at them; see [`is_new_logo`].
pub fn new_logo(origin: Point, width: Fixed, picture: &Picture) -> (r: Result<Rect, CarError>)
    ensures
        is_new_logo(r, origin, width, *picture),
        r is Ok ==> r->Ok_0.wf(),
{
    let (height, pixel_width, pixel_height): (Fixed, u32, u32) = match logo_extents(
        width,
        picture.width,
        picture.height,
    ) {
        Ok(extents) => extents,
        Err(e) => {
            return Err(e);
        },
    };
    assert(pixel_width * pixel_height <= 4096 * 4096) by (nonlinear_arith)
        requires
            pixel_width <= 4096,
            pixel_height <= 4096,
    ;
    let pixels: u64 = (pixel_width as u64) * (pixel_height as u64);
    assert(4 * pixels == 4 * pixel_width * pixel_height) by (nonlinear_arith)
        requires
            pixels == pixel_width * pixel_height,
    ;
    if picture.raster.len() as u64 != 4 * pixels {
        return Err(CarError::AssetLoadError);
    }
    logo_from_raster(origin, width, height, picture.raster.as_slice())
}

} // verus!
