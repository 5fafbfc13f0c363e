//! Images that are put into device frames.

use vstd::prelude::*;
use vstd::string::*;
use crate::media_render::frame::FrameFit;
use crate::media_render::pixels::{at, lemma_at, Raster, Rect};
use crate::media_render::screen::{frame_screen_mask, shown_at};
use crate::seal::bytes_view;
use crate::text::{cat3, failure, Error};

verus! {

impl Raster {
    /// The four bytes of a pixel.
    pub open spec fn pixel(self, x: int, y: int) -> Seq<u8> {
        let i = 4 * at(self.width as int, x, y);
        seq![self.data@[i], self.data@[i + 1], self.data@[i + 2], self.data@[i + 3]]
    }

    /// The image has the size.
    pub open spec fn sized(self, width: int, height: int) -> bool {
        self.wf() && self.width == width && self.height == height
    }
}

/// What a pixel becomes under another one.
pub uninterp spec fn blended(bottom: Seq<u8>, top: Seq<u8>) -> Seq<u8>;

/// The pixel lies under an image that is put at a place.
pub open spec fn covered(top: Raster, left: u32, up: u32, x: int, y: int) -> bool {
    top.within(x - left, y - up)
}

/// Lays one image over another with `image::imageops::overlay` on `RgbaImage`: the pixels under it
/// become what `Pixel::blend` makes of the two, the others stay. `blend` keeps the lower pixel where
/// the upper one has no alpha, and takes the upper one where it has full alpha; what it makes of the
/// rest is not said here.
#[verifier::external_body]
pub(crate) fn overlay(bottom: Raster, top: &Raster, left: u32, up: u32) -> (result: Raster)
    requires
        bottom.wf(),
        top.wf(),
    ensures
        result.sized(bottom.width as int, bottom.height as int),
        forall|x: int, y: int| #[trigger]
            bottom.within(x, y) && !covered(*top, left, up, x, y) ==> result.pixel(x, y)
                == bottom.pixel(x, y),
        forall|x: int, y: int| #[trigger]
            bottom.within(x, y) && covered(*top, left, up, x, y) ==> result.pixel(x, y) == blended(
                bottom.pixel(x, y),
                top.pixel(x - left, y - up),
            ),
        forall|x: int, y: int| #[trigger]
            bottom.within(x, y) && covered(*top, left, up, x, y) && top.alpha(x - left, y - up) == 0
                ==> result.pixel(x, y) == bottom.pixel(x, y),
        forall|x: int, y: int| #[trigger]
            bottom.within(x, y) && covered(*top, left, up, x, y) && top.alpha(x - left, y - up)
                == 255 ==> result.pixel(x, y) == top.pixel(x - left, y - up),
{
    let (width, height) = (bottom.width, bottom.height);
    let mut under = image::RgbaImage::from_raw(width, height, bottom.data).unwrap();
    let over = image::RgbaImage::from_raw(top.width, top.height, top.data.clone()).unwrap();
    image::imageops::overlay(&mut under, &over, left.into(), up.into());
    Raster { width, height, data: under.into_raw() }
}

/// The longest side of an image that is brought to another size. Up to here the place of a pixel,
/// counted in single precision, is off by less than half a pixel.
pub const LONGEST_SIDE: u32 = 2_097_152;

/// An image can be brought to a size: no side is too long, and what this takes can be counted.
pub open spec fn scalable(image: Raster, width: u32, height: u32) -> bool {
    &&& image.width <= LONGEST_SIDE
    &&& image.height <= LONGEST_SIDE
    &&& width <= LONGEST_SIDE
    &&& height <= LONGEST_SIDE
    &&& width * height <= u32::MAX
    &&& 4 * (width * height) <= isize::MAX
    &&& 16 * (image.width * height) <= isize::MAX
}

/// The bytes are those that `image::imageops::resize` may give an image that it brings to a size
/// with the filter `Lanczos3`. Which ones it gives rests on the machine's floating point.
pub uninterp spec fn resampled(
    width: u32,
    height: u32,
    data: Seq<u8>,
    to_width: u32,
    to_height: u32,
    result: Seq<u8>,
) -> bool;

/// An image is another one that was brought to a size. An image that has the size stays.
pub open spec fn scaled_to(result: Raster, image: Raster, width: u32, height: u32) -> bool {
    &&& result.sized(width as int, height as int)
    &&& resampled(image.width, image.height, image.data@, width, height, result.data@)
    &&& image.width == width && image.height == height ==> result.data@ == image.data@
}

/// Brings an image to a size with `image::imageops::resize` and the filter `Lanczos3`. An image that
/// has the size stays; of another one it is said only that it comes from this call. A place that is
/// counted too far from its pixels leaves weights without a sum, on which `resize` panics: `scalable`
/// rules this out.
#[verifier::external_body]
pub(crate) fn resize(image: &Raster, width: u32, height: u32) -> (result: Raster)
    requires
        image.wf(),
        scalable(*image, width, height),
    ensures
        result.sized(width as int, height as int),
        resampled(image.width, image.height, image.data@, width, height, result.data@),
        image.width == width && image.height == height ==> result.data@ == image.data@,
{
    let source = image::RgbaImage::from_raw(image.width, image.height, image.data.clone()).unwrap();
    let filter = image::imageops::FilterType::Lanczos3;
    let data = image::imageops::resize(&source, width, height, filter).into_raw();
    Raster { width, height, data }
}

/// The smaller of two numbers.
pub open spec fn least(a: int, b: int) -> int {
    if a < b {
        a
    } else {
        b
    }
}

/// Cuts a rectangle out of an image with `image::imageops::crop_imm` and `to_image`, as far as it
/// lies in the image.
#[verifier::external_body]
pub(crate) fn crop(image: &Raster, left: u32, up: u32, width: u32, height: u32) -> (result: Raster)
    requires
        image.wf(),
        left <= image.width,
        up <= image.height,
    ensures
        result.sized(
            least(width as int, image.width - left),
            least(height as int, image.height - up),
        ),
        forall|x: int, y: int|
            #![trigger result.pixel(x, y)]
            result.within(x, y) ==> result.pixel(x, y) == image.pixel(x + left, y + up),
{
    let source = image::RgbaImage::from_raw(image.width, image.height, image.data.clone()).unwrap();
    let part = image::imageops::crop_imm(&source, left, up, width, height).to_image();
    Raster { width: part.width(), height: part.height(), data: part.into_raw() }
}

/// Half of what one number is larger than another.
pub open spec fn half_excess(a: u32, b: u32) -> int {
    if a > b {
        (a - b) / 2
    } else {
        0
    }
}

fn half_over(a: u32, b: u32) -> (result: u32)
    ensures
        result == half_excess(a, b),
{
    if a > b {
        (a - b) / 2
    } else {
        0
    }
}

/// The width or height of an image that was fitted, by that of the screen and by that which it has at
/// its own proportions.
pub open spec fn fitted_side(screen: u32, fit: FrameFit, scaled: u32) -> int {
    match fit {
        FrameFit::Fill => screen as int,
        FrameFit::Contain => scaled as int,
        FrameFit::Cover => least(scaled as int, screen as int),
    }
}

/// An image can be fitted into a rectangle.
pub open spec fn fittable(image: Raster, rect: Rect, fit: FrameFit, scaled: (u32, u32)) -> bool {
    match fit {
        FrameFit::Fill => scalable(image, rect.width, rect.height),
        _ => scalable(image, scaled.0, scaled.1),
    }
}

/// An image is the middle of another one, as far as a rectangle reaches.
pub open spec fn middle_of(fitted: Raster, resized: Raster, rect: Rect) -> bool {
    &&& fitted.sized(
        least(rect.width as int, resized.width as int),
        least(rect.height as int, resized.height as int),
    )
    &&& forall|x: int, y: int|
        #![trigger fitted.pixel(x, y)]
        fitted.within(x, y) ==> fitted.pixel(x, y) == resized.pixel(
            x + half_excess(resized.width, rect.width),
            y + half_excess(resized.height, rect.height),
        )
}

/// The middle of an image, as far as a rectangle reaches.
pub fn keep_middle(resized: &Raster, rect: Rect) -> (fitted: Raster)
    requires
        resized.wf(),
    ensures
        middle_of(fitted, *resized, rect),
{
    crop(
        resized,
        half_over(resized.width, rect.width),
        half_over(resized.height, rect.height),
        rect.width,
        rect.height,
    )
}

/// An image is another one that was fitted into a rectangle: brought to the size of the rectangle,
/// brought to its size at its own proportions, or the middle of what was brought to that size.
pub open spec fn fits_as(
    fitted: Raster,
    screen: Raster,
    rect: Rect,
    fit: FrameFit,
    scaled: (u32, u32),
) -> bool {
    match fit {
        FrameFit::Fill => scaled_to(fitted, screen, rect.width, rect.height),
        FrameFit::Contain => scaled_to(fitted, screen, scaled.0, scaled.1),
        FrameFit::Cover => exists|resized: Raster| #[trigger]
            scaled_to(resized, screen, scaled.0, scaled.1) && middle_of(fitted, resized, rect),
    }
}

/// Fits an image into a rectangle. `scaled` is its size at its own proportions: the largest within
/// the rectangle for `Contain`, the smallest around it for `Cover`, of which the middle is kept.
pub fn fit_screen_to_frame_rect(
    screen: &Raster,
    rect: Rect,
    fit: FrameFit,
    scaled: (u32, u32),
) -> (fitted: Raster)
    requires
        screen.wf(),
        fittable(*screen, rect, fit, scaled),
    ensures
        fits_as(fitted, *screen, rect, fit, scaled),
        fitted.sized(
            fitted_side(rect.width, fit, scaled.0),
            fitted_side(rect.height, fit, scaled.1),
        ),
{
    match fit {
        FrameFit::Fill => resize(screen, rect.width, rect.height),
        FrameFit::Contain => resize(screen, scaled.0, scaled.1),
        FrameFit::Cover => {
            let resized = resize(screen, scaled.0, scaled.1);
            proof {
                assert(scaled_to(resized, *screen, scaled.0, scaled.1));
            }
            keep_middle(&resized, rect)
        },
    }
}

/// An image that has its size at its own proportions already is not changed where it is to lie in
/// the rectangle, and keeps its middle where it is to cover it; one of the size of the rectangle is
/// not changed where it is to fill it.
pub proof fn law_fitting_sizes_stay(
    fitted: Raster,
    screen: Raster,
    rect: Rect,
    fit: FrameFit,
    scaled: (u32, u32),
)
    requires
        screen.wf(),
        fits_as(fitted, screen, rect, fit, scaled),
    ensures
        fit is Fill && screen.width == rect.width && screen.height == rect.height ==> fitted.data@
            == screen.data@,
        fit is Contain && screen.width == scaled.0 && screen.height == scaled.1 ==> fitted.data@
            == screen.data@,
        fit is Cover && screen.width == scaled.0 && screen.height == scaled.1 ==> middle_of(
            fitted,
            screen,
            rect,
        ),
{
    if fit is Cover && screen.width == scaled.0 && screen.height == scaled.1 {
        let resized = choose|resized: Raster| #[trigger]
            scaled_to(resized, screen, scaled.0, scaled.1) && middle_of(fitted, resized, rect);
        assert forall|x: int, y: int|
            #![trigger fitted.pixel(x, y)]
            fitted.within(x, y) implies fitted.pixel(x, y) == screen.pixel(
            x + half_excess(screen.width, rect.width),
            y + half_excess(screen.height, rect.height),
        ) by {
            assert(resized.data@ == screen.data@);
        }
    }
}

/// Where a fitted image is put, so that it lies in the middle of the screen.
pub open spec fn offset_of(start: u32, screen: u32, side: u32) -> int {
    start + half_excess(screen, side)
}

/// Where a fitted image is put, so that it lies in the middle of the screen.
pub fn screen_offset(rect: Rect, width: u32, height: u32) -> (offset: (u32, u32))
    requires
        offset_of(rect.x, rect.width, width) <= u32::MAX,
        offset_of(rect.y, rect.height, height) <= u32::MAX,
    ensures
        offset.0 == offset_of(rect.x, rect.width, width),
        offset.1 == offset_of(rect.y, rect.height, height),
{
    (rect.x + half_over(rect.width, width), rect.y + half_over(rect.height, height))
}

/// An image of one color that is fully clear.
fn clear_raster(width: u32, height: u32) -> (image: Raster)
    requires
        width * height <= u32::MAX,
        4 * (width * height) <= usize::MAX,
    ensures
        image.sized(width as int, height as int),
        forall|x: int, y: int|
            #![trigger image.pixel(x, y)]
            image.within(x, y) ==> image.pixel(x, y) == seq![255u8, 255u8, 255u8, 0u8],
{
    proof {
        assert(0 <= width * height) by (nonlinear_arith)
            requires
                0 <= width,
                0 <= height,
        ;
    }
    let count: u32 = width * height;
    let mut data: Vec<u8> = Vec::new();
    let mut i: u32 = 0;
    while i < count
        invariant
            i <= count == width * height,
            data@.len() == 4 * i,
            forall|k: int|
                #![trigger data@[4 * k]]
                0 <= k < i ==> data@[4 * k] == 255 && data@[4 * k + 1] == 255 && data@[4 * k + 2]
                    == 255 && data@[4 * k + 3] == 0,
        decreases count - i,
    {
        let ghost before = data@;
        data.push(255);
        data.push(255);
        data.push(255);
        data.push(0);
        proof {
            assert forall|k: int| #![trigger data@[4 * k]] 0 <= k < i + 1 implies data@[4 * k]
                == 255 && data@[4 * k + 1] == 255 && data@[4 * k + 2] == 255 && data@[4 * k + 3]
                == 0 by {
                if k < i {
                    assert(data@[4 * k] == before[4 * k]);
                }
            }
        }
        i += 1;
    }
    let image = Raster { width, height, data };
    proof {
        assert forall|x: int, y: int|
            #![trigger image.pixel(x, y)]
            image.within(x, y) implies image.pixel(x, y) == seq![255u8, 255u8, 255u8, 0u8] by {
            lemma_at(width as int, height as int, x, y);
            let k = at(width as int, x, y);
            assert(data@[4 * k] == 255);
        }
    }
    image
}

/// A pixel of which only a part shows.
pub open spec fn dimmed(pixel: Seq<u8>, shown: u8) -> Seq<u8> {
    pixel.update(3, (pixel[3] * shown / 255) as u8)
}

/// Dims an image to what shows through a frame.
pub fn apply_frame_screen_mask(content: &mut Raster, frame: &Raster, fallback: Rect)
    requires
        frame.wf(),
        frame.width > 0,
        frame.height > 0,
        old(content).sized(frame.width as int, frame.height as int),
    ensures
        final(content).sized(frame.width as int, frame.height as int),
        forall|x: int, y: int|
            #![trigger frame.within(x, y)]
            frame.within(x, y) ==> final(content).pixel(x, y) == dimmed(
                old(content).pixel(x, y),
                shown_at(*frame, fallback, x, y),
            ),
{
    let mask = frame_screen_mask(frame, fallback);
    let ghost before = content.data@;
    let ghost width = frame.width as int;
    let ghost height = frame.height as int;
    let count: usize = mask.len();
    let mut i: usize = 0;
    while i < count
        invariant
            i <= count == mask@.len(),
            count == width * height,
            width == frame.width,
            height == frame.height,
            content.width == width,
            content.height == height,
            width * height <= u32::MAX,
            before.len() == 4 * count,
            content.data@.len() == before.len(),
            forall|k: int|
                0 <= k < before.len() && k % 4 != 3 ==> #[trigger] content.data@[k] == before[k],
            forall|k: int|
                #![trigger content.data@[4 * k + 3]]
                0 <= k < i ==> content.data@[4 * k + 3] == (before[4 * k + 3] * mask@[k] / 255)
                    as u8,
            forall|k: int|
                #![trigger content.data@[4 * k + 3]]
                i <= k < count ==> content.data@[4 * k + 3] == before[4 * k + 3],
        decreases count - i,
    {
        let n: usize = content.data.len();
        proof {
            assert(4 * i + 3 < n);
        }
        let alpha: u16 = content.data[4 * i + 3] as u16;
        let shown: u16 = mask[i] as u16;
        proof {
            assert(content.data@[4 * i + 3] == before[4 * i + 3]);
            assert(alpha * shown <= 255 * 255) by (nonlinear_arith)
                requires
                    alpha <= 255,
                    shown <= 255,
            ;
            assert(alpha * shown / 255 <= 255);
        }
        content.data.set(4 * i + 3, (alpha * shown / 255) as u8);
        i += 1;
    }
    proof {
        assert forall|x: int, y: int|
            #![trigger frame.within(x, y)]
            frame.within(x, y) implies content.pixel(x, y) == dimmed(
            old(content).pixel(x, y),
            shown_at(*frame, fallback, x, y),
        ) by {
            lemma_at(width, height, x, y);
            let k = at(width, x, y);
            assert(content.data@[4 * k + 3] == (before[4 * k + 3] * mask@[k] / 255) as u8);
            assert(content.data@[4 * k] == before[4 * k]);
            assert(content.data@[4 * k + 1] == before[4 * k + 1]);
            assert(content.data@[4 * k + 2] == before[4 * k + 2]);
            assert(content.pixel(x, y) =~= dimmed(
                old(content).pixel(x, y),
                shown_at(*frame, fallback, x, y),
            ));
        }
    }
}

/// What is seen of a fitted image at a pixel, before the frame is laid over it.
pub open spec fn seen_at(frame: Raster, fitted: Raster, rect: Rect, x: int, y: int) -> Seq<u8> {
    let left = offset_of(rect.x, rect.width, fitted.width) as u32;
    let up = offset_of(rect.y, rect.height, fitted.height) as u32;
    let white = seq![255u8, 255u8, 255u8, 0u8];
    dimmed(
        if covered(fitted, left, up, x, y) {
            blended(white, fitted.pixel(x - left, y - up))
        } else {
            white
        },
        shown_at(frame, rect, x, y),
    )
}

/// A fitted image can be put into the screen of a frame.
pub open spec fn composable(frame: Raster, fitted: Raster, rect: Rect) -> bool {
    &&& frame.wf()
    &&& frame.width > 0
    &&& frame.height > 0
    &&& fitted.wf()
    &&& offset_of(rect.x, rect.width, fitted.width) <= u32::MAX
    &&& offset_of(rect.y, rect.height, fitted.height) <= u32::MAX
}

/// The result is an image that was put into the screen of a frame: it shows where the frame has its
/// screen, and the frame lies over it. Where the frame is opaque the frame is seen, and where it is
/// fully clear inside its screen an opaque image is seen.
pub open spec fn framed(result: Raster, frame: Raster, fitted: Raster, rect: Rect) -> bool {
    &&& result.sized(frame.width as int, frame.height as int)
    &&& forall|x: int, y: int|
        #![trigger frame.within(x, y)]
        frame.within(x, y) ==> result.pixel(x, y) == blended(
            seen_at(frame, fitted, rect, x, y),
            frame.pixel(x, y),
        )
    &&& forall|x: int, y: int|
        #![trigger frame.within(x, y)]
        frame.within(x, y) && frame.alpha(x, y) == 255 ==> result.pixel(x, y) == frame.pixel(x, y)
    &&& forall|x: int, y: int|
        #![trigger frame.screen(x, y)]
        ({
            let left = offset_of(rect.x, rect.width, fitted.width);
            let up = offset_of(rect.y, rect.height, fitted.height);
            frame.screen(x, y) && frame.alpha(x, y) == 0 && fitted.within(x - left, y - up)
                && fitted.alpha(x - left, y - up) == 255 ==> result.pixel(x, y) == fitted.pixel(
                x - left,
                y - up,
            )
        })
}

/// Puts a fitted image into the screen of a frame.
pub fn compose_fitted(frame: &Raster, fitted: &Raster, rect: Rect) -> (result: Raster)
    requires
        composable(*frame, *fitted, rect),
    ensures
        framed(result, *frame, *fitted, rect),
{
    let (left, up) = screen_offset(rect, fitted.width, fitted.height);
    proof {
        assert(frame.data.len() <= usize::MAX);
    }
    let empty = clear_raster(frame.width, frame.height);
    let mut content = overlay(empty, fitted, left, up);
    let ghost laid = content;
    apply_frame_screen_mask(&mut content, frame, rect);
    let ghost dim = content;
    let result = overlay(content, frame, 0, 0);
    proof {
        assert forall|x: int, y: int|
            #![trigger frame.within(x, y)]
            frame.within(x, y) implies result.pixel(x, y) == blended(
            seen_at(*frame, *fitted, rect, x, y),
            frame.pixel(x, y),
        ) && (frame.alpha(x, y) == 255 ==> result.pixel(x, y) == frame.pixel(x, y)) && (frame.alpha(
            x,
            y,
        ) == 0 ==> result.pixel(x, y) == dim.pixel(x, y)) && dim.pixel(x, y) == dimmed(
            laid.pixel(x, y),
            shown_at(*frame, rect, x, y),
        ) by {
            assert(empty.within(x, y));
            assert(empty.pixel(x, y) == seq![255u8, 255u8, 255u8, 0u8]);
            assert(dim.within(x, y));
            assert(covered(*frame, 0, 0, x, y));
        }
        assert forall|x: int, y: int|
            #![trigger frame.screen(x, y)]
            frame.screen(x, y) && frame.alpha(x, y) == 0 && fitted.within(x - left, y - up)
                && fitted.alpha(x - left, y - up) == 255 implies result.pixel(x, y)
            == fitted.pixel(x - left, y - up) by {
            assert(frame.within(x, y));
            assert(empty.within(x, y));
            assert(covered(*fitted, left, up, x, y));
            let pixel = fitted.pixel(x - left, y - up);
            assert(laid.pixel(x, y) == pixel);
            assert(shown_at(*frame, rect, x, y) == 255);
            assert(pixel[3] * 255 / 255 == pixel[3]);
            assert(dimmed(pixel, 255) =~= pixel);
        }
    }
    result
}

/// The message of an image without pixels.
pub open spec fn empty_screen_message(screen_path: Seq<char>) -> Seq<char> {
    "screen image "@ + screen_path + " is empty"@
}

/// The result is an image that was fitted into the screen of a frame and put there.
pub open spec fn framed_screen(
    result: Raster,
    frame: Raster,
    screen: Raster,
    rect: Rect,
    fit: FrameFit,
    scaled: (u32, u32),
) -> bool {
    exists|fitted: Raster| #[trigger]
        framed(result, frame, fitted, rect) && fits_as(fitted, screen, rect, fit, scaled)
}

/// Fits an image into the screen of a frame and puts it there.
pub fn compose_framed_screen(
    frame: &Raster,
    screen: &Raster,
    screen_path: &str,
    rect: Rect,
    fit: FrameFit,
    scaled: (u32, u32),
) -> (result: Result<Raster, Error>)
    requires
        frame.wf(),
        frame.width > 0,
        frame.height > 0,
        screen.wf(),
        fittable(*screen, rect, fit, scaled),
        offset_of(rect.x, rect.width, fitted_side(rect.width, fit, scaled.0) as u32) <= u32::MAX,
        offset_of(rect.y, rect.height, fitted_side(rect.height, fit, scaled.1) as u32) <= u32::MAX,
    ensures
        screen.width == 0 || screen.height == 0 ==> (result matches Err(error) && error@
            == empty_screen_message(screen_path@)),
        screen.width > 0 && screen.height > 0 ==> (result matches Ok(image) && framed_screen(
            image,
            *frame,
            *screen,
            rect,
            fit,
            scaled,
        )),
{
    if screen.width == 0 || screen.height == 0 {
        return Err(failure(cat3("screen image ", screen_path, " is empty")));
    }
    let fitted = fit_screen_to_frame_rect(screen, rect, fit, scaled);
    let image = compose_fitted(frame, &fitted, rect);
    proof {
        assert(framed(image, *frame, fitted, rect));
    }
    Ok(image)
}

/// What `image` writes of an image as PNG, where it takes it.
pub uninterp spec fn png_of(width: u32, height: u32, data: Seq<u8>) -> Option<Seq<u8>>;

/// Writes an image as PNG with `image::DynamicImage::write_to`. The bytes depend on the image alone.
#[verifier::external_body]
pub(crate) fn encode_png(image: Raster) -> (result: Option<Vec<u8>>)
    requires
        image.wf(),
        image.width > 0,
        image.height > 0,
    ensures
        bytes_view(result) == png_of(image.width, image.height, image.data@),
{
    let pixels = image::RgbaImage::from_raw(image.width, image.height, image.data).unwrap();
    let mut cursor = std::io::Cursor::new(Vec::new());
    let image = image::DynamicImage::ImageRgba8(pixels);
    image.write_to(&mut cursor, image::ImageFormat::Png).ok()?;
    Some(cursor.into_inner())
}

/// The PNG of an image, or an error where there is none.
pub fn encoded_png(png: Option<Vec<u8>>) -> (result: Result<Vec<u8>, Error>)
    ensures
        match png {
            Some(bytes) => result matches Ok(written) && written@ == bytes@,
            None => result matches Err(error) && error@ == "failed to encode framed screen PNG"@,
        },
{
    match png {
        Some(bytes) => Ok(bytes),
        None => Err(failure("failed to encode framed screen PNG".to_string())),
    }
}

/// The bytes are the PNG of an image, or the error says that it has none.
pub open spec fn written_png(result: Result<Vec<u8>, Error>, image: Raster) -> bool {
    match png_of(image.width, image.height, image.data@) {
        Some(bytes) => result matches Ok(written) && written@ == bytes,
        None => result matches Err(error) && error@ == "failed to encode framed screen PNG"@,
    }
}

/// Fits an image into the screen of a frame, puts it there and writes it as PNG.
pub fn framed_screen_png_bytes(
    frame: &Raster,
    screen: &Raster,
    screen_path: &str,
    rect: Rect,
    fit: FrameFit,
    scaled: (u32, u32),
) -> (result: Result<Vec<u8>, Error>)
    requires
        frame.wf(),
        frame.width > 0,
        frame.height > 0,
        screen.wf(),
        fittable(*screen, rect, fit, scaled),
        offset_of(rect.x, rect.width, fitted_side(rect.width, fit, scaled.0) as u32) <= u32::MAX,
        offset_of(rect.y, rect.height, fitted_side(rect.height, fit, scaled.1) as u32) <= u32::MAX,
    ensures
        screen.width == 0 || screen.height == 0 ==> (result matches Err(error) && error@
            == empty_screen_message(screen_path@)),
        screen.width > 0 && screen.height > 0 ==> exists|image: Raster| #[trigger]
            framed_screen(image, *frame, *screen, rect, fit, scaled) && written_png(result, image),
{
    let image = match compose_framed_screen(frame, screen, screen_path, rect, fit, scaled) {
        Ok(image) => image,
        Err(error) => return Err(error),
    };
    let ghost composed = image;
    let result = encoded_png(encode_png(image));
    proof {
        assert(framed_screen(composed, *frame, *screen, rect, fit, scaled));
        assert(written_png(result, composed));
    }
    result
}

/// A channel over white.
pub open spec fn over_white(channel: u8, alpha: u8) -> u8 {
    ((channel * alpha + 255 * (255 - alpha) + 127) / 255) as u8
}

fn blend_white(channel: u8, alpha: u8) -> (result: u8)
    ensures
        result == over_white(channel, alpha),
{
    let c: u32 = channel as u32;
    let a: u32 = alpha as u32;
    proof {
        assert(c * a <= 255 * a) by (nonlinear_arith)
            requires
                c <= 255,
                a <= 255,
        ;
    }
    ((c * a + 255 * (255 - a) + 127) / 255) as u8
}

/// Over white an opaque channel stays, a clear one is white, and every one is at least as bright as
/// before.
pub proof fn law_over_white(channel: u8, alpha: u8)
    ensures
        over_white(channel, 255) == channel,
        over_white(channel, 0) == 255,
        over_white(channel, alpha) >= channel,
{
    let c = channel as int;
    let a = alpha as int;
    assert(c * a + 255 * (255 - a) >= 255 * c) by (nonlinear_arith)
        requires
            0 <= c <= 255,
            0 <= a <= 255,
    ;
    assert(c * a + 255 * (255 - a) <= 255 * 255) by (nonlinear_arith)
        requires
            0 <= c <= 255,
            0 <= a <= 255,
    ;
}

/// The bytes of an image over white, three for a pixel.
pub fn flatten_alpha_to_white(image: &Raster) -> (data: Vec<u8>)
    requires
        image.data@.len() == 4 * (image.width * image.height),
    ensures
        data@.len() == 3 * (image.width * image.height),
        forall|x: int, y: int, c: int|
            #![trigger image.within(x, y), image.pixel(x, y)[c]]
            image.within(x, y) && 0 <= c < 3 ==> data@[3 * at(image.width as int, x, y) + c]
                == over_white(image.pixel(x, y)[c], image.alpha(x, y)),
{
    let ghost width = image.width as int;
    let ghost height = image.height as int;
    let n: usize = image.data.len();
    let count: usize = n / 4;
    let mut data: Vec<u8> = Vec::new();
    let mut i: usize = 0;
    while i < count
        invariant
            i <= count,
            n == image.data@.len() == 4 * count,
            data@.len() == 3 * i,
            forall|k: int, c: int|
                #![trigger data@[3 * k + c]]
                0 <= k < i && 0 <= c < 3 ==> data@[3 * k + c] == over_white(
                    image.data@[4 * k + c],
                    image.data@[4 * k + 3],
                ),
        decreases count - i,
    {
        proof {
            assert(4 * i + 3 < n);
        }
        let alpha: u8 = image.data[4 * i + 3];
        data.push(blend_white(image.data[4 * i], alpha));
        data.push(blend_white(image.data[4 * i + 1], alpha));
        data.push(blend_white(image.data[4 * i + 2], alpha));
        proof {
            assert forall|k: int, c: int|
                #![trigger data@[3 * k + c]]
                0 <= k < i + 1 && 0 <= c < 3 implies data@[3 * k + c] == over_white(
                image.data@[4 * k + c],
                image.data@[4 * k + 3],
            ) by {
                if k == i {
                    assert(c == 0 || c == 1 || c == 2);
                }
            }
        }
        i += 1;
    }
    proof {
        assert forall|x: int, y: int, c: int|
            #![trigger image.within(x, y), image.pixel(x, y)[c]]
            image.within(x, y) && 0 <= c < 3 implies data@[3 * at(image.width as int, x, y) + c]
            == over_white(image.pixel(x, y)[c], image.alpha(x, y)) by {
            lemma_at(width, height, x, y);
            let k = at(width, x, y);
            assert(c == 0 || c == 1 || c == 2);
            assert(data@[3 * k + c] == over_white(image.data@[4 * k + c], image.data@[4 * k + 3]));
        }
    }
    data
}

} // verus!
