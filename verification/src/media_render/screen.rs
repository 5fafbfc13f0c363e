//! The screen of a device frame: where it is, and how an image is put into it.

use vstd::prelude::*;
use vstd::string::*;
use crate::media_render::pixels::{
    at, lemma_at, lemma_at_apart, outside_pixels, Raster, Rect, CLEAR_ALPHA,
};
use crate::text::{failure, Error};

verus! {

/// A walk over the pixels of an image, row by row.
struct Walk {
    x: u32,
    y: u32,
    index: usize,
}

impl Walk {
    spec fn follows(self, width: u32, height: u32) -> bool {
        &&& self.x < width
        &&& self.y <= height
        &&& self.index == at(width as int, self.x as int, self.y as int)
        &&& self.index <= width * height
        &&& self.index < width * height ==> self.y < height
    }

    fn start(width: u32, height: u32) -> (walk: Walk)
        requires
            width > 0,
            height > 0,
        ensures
            walk.follows(width, height),
            walk.index == 0,
    {
        proof {
            assert(0 < width * height) by (nonlinear_arith)
                requires
                    width > 0,
                    height > 0,
            ;
        }
        Walk { x: 0, y: 0, index: 0 }
    }

    fn step(&mut self, width: u32, height: u32)
        requires
            old(self).follows(width, height),
            old(self).index < width * height <= usize::MAX,
        ensures
            final(self).follows(width, height),
            final(self).index == old(self).index + 1,
    {
        let ghost y = self.y as int;
        let ghost w = width as int;
        let ghost h = height as int;
        self.index = self.index + 1;
        if self.x + 1 < width {
            self.x = self.x + 1;
        } else {
            self.x = 0;
            self.y = self.y + 1;
            proof {
                assert((y + 1) * w == y * w + w) by (nonlinear_arith);
            }
        }
        proof {
            if self.y >= h {
                assert(self.y * w >= h * w) by (nonlinear_arith)
                    requires
                        self.y >= h,
                        w > 0,
                ;
                assert(h * w == w * h) by (nonlinear_arith);
            }
        }
    }
}

/// The rectangle around the screen of a frame.
pub fn detect_screen_bounds_from_alpha(image: &Raster) -> (result: Result<Rect, Error>)
    requires
        image.wf(),
    ensures
        if image.width == 0 || image.height == 0 {
            result matches Err(error) && error@ == "frame image is empty"@
        } else if !image.has_screen() {
            result matches Err(error) && error@
                == "frame image does not contain an inner transparent screen area"@
        } else {
            result matches Ok(rect) && image.bounded_by(rect)
        },
{
    if image.width == 0 || image.height == 0 {
        return Err(failure("frame image is empty".to_owned()));
    }
    let width: u32 = image.width;
    let height: u32 = image.height;
    let marks = outside_pixels(image);
    let count: usize = marks.len();
    let mut left: u32 = width;
    let mut top: u32 = height;
    let mut right: u32 = 0;
    let mut bottom: u32 = 0;
    let mut walk = Walk::start(width, height);
    let ghost mut found = false;
    let ghost mut at_left = (0int, 0int);
    let ghost mut at_top = (0int, 0int);
    let ghost mut at_right = (0int, 0int);
    let ghost mut at_bottom = (0int, 0int);
    while walk.index < count
        invariant
            image.wf(),
            image.width == width > 0,
            image.height == height > 0,
            count == width * height,
            marks@.len() == count,
            forall|x: int, y: int|
                #![trigger image.outside(x, y)]
                image.within(x, y) ==> marks@[at(width as int, x, y)] == image.outside(x, y),
            walk.follows(width, height),
            forall|x: int, y: int| #[trigger]
                image.screen(x, y) && at(width as int, x, y) < walk.index ==> left <= x < right
                    && top <= y < bottom,
            found ==> {
                &&& image.screen(at_left.0, at_left.1) && at_left.0 == left
                &&& image.screen(at_top.0, at_top.1) && at_top.1 == top
                &&& image.screen(at_right.0, at_right.1) && at_right.0 + 1 == right
                &&& image.screen(at_bottom.0, at_bottom.1) && at_bottom.1 + 1 == bottom
                &&& left < right && top < bottom
            },
            !found ==> {
                &&& left == width && top == height && right == 0 && bottom == 0
                &&& forall|x: int, y: int| #[trigger]
                    image.screen(x, y) ==> at(width as int, x, y) >= walk.index
            },
        decreases count - walk.index,
    {
        let x: u32 = walk.x;
        let y: u32 = walk.y;
        let ghost here = walk.index as int;
        let clear = image.alpha_at(x, y) <= CLEAR_ALPHA;
        proof {
            assert(image.within(x as int, y as int));
            assert(marks@[here] == image.outside(x as int, y as int));
        }
        if clear && !marks[walk.index] {
            proof {
                assert(image.screen(x as int, y as int));
                if !found || x < left {
                    at_left = (x as int, y as int);
                }
                if !found || y < top {
                    at_top = (x as int, y as int);
                }
                if !found || x + 1 > right {
                    at_right = (x as int, y as int);
                }
                if !found || y + 1 > bottom {
                    at_bottom = (x as int, y as int);
                }
                found = true;
            }
            if x < left {
                left = x;
            }
            if y < top {
                top = y;
            }
            if x + 1 > right {
                right = x + 1;
            }
            if y + 1 > bottom {
                bottom = y + 1;
            }
        }
        proof {
            assert forall|a: int, b: int| #[trigger]
                image.screen(a, b) && at(width as int, a, b) < here + 1 implies left <= a < right
                && top <= b < bottom by {
                if at(width as int, a, b) == here {
                    lemma_at_apart(width as int, a, b, x as int, y as int);
                }
            }
            if !found {
                assert forall|a: int, b: int| #[trigger] image.screen(a, b) implies at(
                    width as int,
                    a,
                    b,
                ) >= here + 1 by {
                    if at(width as int, a, b) == here {
                        lemma_at_apart(width as int, a, b, x as int, y as int);
                    }
                }
            }
        }
        walk.step(width, height);
    }
    proof {
        assert forall|x: int, y: int| #[trigger] image.screen(x, y) implies at(width as int, x, y)
            < count by {
            lemma_at(width as int, height as int, x, y);
        }
    }
    if left < right && top < bottom {
        let rect = Rect { x: left, y: top, width: right - left, height: bottom - top };
        Ok(rect)
    } else {
        Err(
            failure("frame image does not contain an inner transparent screen area".to_owned()),
        )
    }
}

/// How much of an image shows through a frame at a pixel: all of what the frame lets through of its
/// screen, or the fallback rectangle where the frame has no screen.
pub open spec fn shown_at(frame: Raster, fallback: Rect, x: int, y: int) -> u8 {
    if frame.has_screen() {
        if frame.screen(x, y) {
            (255 - frame.alpha(x, y)) as u8
        } else {
            0
        }
    } else if fallback.holds(x, y) {
        255
    } else {
        0
    }
}

/// How much of an image shows through a frame, pixel by pixel.
pub fn frame_screen_mask(frame: &Raster, fallback: Rect) -> (mask: Vec<u8>)
    requires
        frame.wf(),
        frame.width > 0,
        frame.height > 0,
    ensures
        mask@.len() == frame.width * frame.height,
        forall|x: int, y: int|
            #![trigger frame.within(x, y)]
            frame.within(x, y) ==> mask@[at(frame.width as int, x, y)] == shown_at(
                *frame,
                fallback,
                x,
                y,
            ),
{
    let width: u32 = frame.width;
    let height: u32 = frame.height;
    let marks = outside_pixels(frame);
    let count: usize = marks.len();
    let mut mask: Vec<u8> = Vec::new();
    let mut any = false;
    let ghost mut seen = (0int, 0int);
    let mut walk = Walk::start(width, height);
    while walk.index < count
        invariant
            frame.wf(),
            frame.width == width > 0,
            frame.height == height > 0,
            count == width * height,
            marks@.len() == count,
            mask@.len() == walk.index,
            forall|x: int, y: int|
                #![trigger frame.outside(x, y)]
                frame.within(x, y) ==> marks@[at(width as int, x, y)] == frame.outside(x, y),
            walk.follows(width, height),
            any ==> frame.screen(seen.0, seen.1),
            !any ==> forall|x: int, y: int| #[trigger]
                frame.screen(x, y) ==> at(width as int, x, y) >= walk.index,
            forall|x: int, y: int|
                #![trigger frame.within(x, y)]
                frame.within(x, y) && at(width as int, x, y) < walk.index ==> mask@[at(
                    width as int,
                    x,
                    y,
                )] == (if frame.screen(x, y) {
                    (255 - frame.alpha(x, y)) as u8
                } else {
                    0
                }),
        decreases count - walk.index,
    {
        let ghost here = walk.index as int;
        let ghost x = walk.x as int;
        let ghost y = walk.y as int;
        let ghost before = mask@;
        let alpha: u8 = frame.alpha_at(walk.x, walk.y);
        proof {
            assert(frame.within(x, y));
            assert(marks@[here] == frame.outside(x, y));
        }
        if alpha <= CLEAR_ALPHA && !marks[walk.index] {
            mask.push(255 - alpha);
            any = true;
            proof {
                seen = (x, y);
                assert(frame.screen(x, y));
            }
        } else {
            mask.push(0);
        }
        proof {
            assert forall|a: int, b: int|
                #![trigger frame.within(a, b)]
                frame.within(a, b) && at(width as int, a, b) < here + 1 implies mask@[at(
                width as int,
                a,
                b,
            )] == (if frame.screen(a, b) {
                (255 - frame.alpha(a, b)) as u8
            } else {
                0
            }) by {
                lemma_at(width as int, height as int, a, b);
                if at(width as int, a, b) == here {
                    lemma_at_apart(width as int, a, b, x, y);
                } else {
                    assert(mask@[at(width as int, a, b)] == before[at(width as int, a, b)]);
                }
            }
            if !any {
                assert forall|a: int, b: int| #[trigger] frame.screen(a, b) implies at(
                    width as int,
                    a,
                    b,
                ) >= here + 1 by {
                    if at(width as int, a, b) == here {
                        lemma_at_apart(width as int, a, b, x, y);
                    }
                }
            }
        }
        walk.step(width, height);
    }
    proof {
        assert forall|x: int, y: int| #[trigger] frame.within(x, y) implies at(width as int, x, y)
            < count by {
            lemma_at(width as int, height as int, x, y);
        }
    }
    if any {
        return mask;
    }
    proof {
        assert(!frame.has_screen()) by {
            assert forall|x: int, y: int| !frame.screen(x, y) by {
                if frame.screen(x, y) {
                    assert(frame.within(x, y));
                }
            }
        }
    }
    rectangle_mask(frame, fallback)
}

fn rectangle_mask(frame: &Raster, rect: Rect) -> (mask: Vec<u8>)
    requires
        frame.wf(),
        frame.width > 0,
        frame.height > 0,
    ensures
        mask@.len() == frame.width * frame.height,
        forall|x: int, y: int|
            #![trigger frame.within(x, y)]
            frame.within(x, y) ==> mask@[at(frame.width as int, x, y)] == (if rect.holds(x, y) {
                255u8
            } else {
                0u8
            }),
{
    let width: u32 = frame.width;
    let height: u32 = frame.height;
    let count: usize = frame.data.len() / 4;
    let mut mask: Vec<u8> = Vec::new();
    let mut walk = Walk::start(width, height);
    while walk.index < count
        invariant
            frame.width == width > 0,
            frame.height == height > 0,
            count == width * height,
            mask@.len() == walk.index,
            walk.follows(width, height),
            forall|x: int, y: int|
                #![trigger frame.within(x, y)]
                frame.within(x, y) && at(width as int, x, y) < walk.index ==> mask@[at(
                    width as int,
                    x,
                    y,
                )] == (if rect.holds(x, y) {
                    255u8
                } else {
                    0u8
                }),
        decreases count - walk.index,
    {
        let ghost here = walk.index as int;
        let ghost before = mask@;
        let x: u32 = walk.x;
        let y: u32 = walk.y;
        let inside = rect.x <= x && x - rect.x < rect.width && rect.y <= y && y - rect.y
            < rect.height;
        mask.push(
            if inside {
                255
            } else {
                0
            },
        );
        proof {
            assert forall|a: int, b: int|
                #![trigger frame.within(a, b)]
                frame.within(a, b) && at(width as int, a, b) < here + 1 implies mask@[at(
                width as int,
                a,
                b,
            )] == (if rect.holds(a, b) {
                255u8
            } else {
                0u8
            }) by {
                lemma_at(width as int, height as int, a, b);
                if at(width as int, a, b) == here {
                    lemma_at_apart(width as int, a, b, x as int, y as int);
                } else {
                    assert(mask@[at(width as int, a, b)] == before[at(width as int, a, b)]);
                }
            }
        }
        walk.step(width, height);
    }
    proof {
        assert forall|x: int, y: int| #[trigger] frame.within(x, y) implies at(width as int, x, y)
            < count by {
            lemma_at(width as int, height as int, x, y);
        }
    }
    mask
}

} // verus!
