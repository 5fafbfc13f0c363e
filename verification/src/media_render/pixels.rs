//! Pixels of device frames: which part of a frame is its screen.

use vstd::prelude::*;
use vstd::string::*;

verus! {

/// A rectangle of pixels.
#[derive(Debug, Clone, Copy, PartialEq, Eq, Structural)]
pub struct Rect {
    pub x: u32,
    pub y: u32,
    pub width: u32,
    pub height: u32,
}

impl Rect {
    /// The pixel lies in the rectangle.
    pub open spec fn holds(self, x: int, y: int) -> bool {
        &&& self.x <= x < self.x + self.width
        &&& self.y <= y < self.y + self.height
    }
}

/// An image, row by row, with four bytes for a pixel: red, green, blue and alpha.
#[derive(Debug)]
pub struct Raster {
    pub width: u32,
    pub height: u32,
    pub data: Vec<u8>,
}

/// The largest alpha of a pixel through which the screen shows.
pub const CLEAR_ALPHA: u8 = 50;

/// The place of a pixel among the pixels of an image.
pub open spec fn at(width: int, x: int, y: int) -> int {
    y * width + x
}

impl Raster {
    /// The bytes are those of as many pixels as the image has, and the pixels can be counted.
    pub open spec fn wf(self) -> bool {
        &&& self.data@.len() == 4 * (self.width * self.height)
        &&& self.width * self.height <= u32::MAX
    }

    /// The pixel lies in the image.
    pub open spec fn within(self, x: int, y: int) -> bool {
        0 <= x < self.width && 0 <= y < self.height
    }

    /// The alpha of a pixel.
    pub open spec fn alpha(self, x: int, y: int) -> u8 {
        self.data@[4 * at(self.width as int, x, y) + 3]
    }

    /// The pixel lies in the image and can be seen through.
    pub open spec fn clear(self, x: int, y: int) -> bool {
        self.within(x, y) && self.alpha(x, y) <= CLEAR_ALPHA
    }

    /// The pixel lies at the edge of the image.
    pub open spec fn border(self, x: int, y: int) -> bool {
        self.within(x, y) && (x == 0 || y == 0 || x == self.width - 1 || y == self.height - 1)
    }

    /// The pixels lead from the edge of the image to their last one, side by side, and all of them
    /// can be seen through.
    pub open spec fn leads(self, path: Seq<(int, int)>) -> bool {
        &&& path.len() > 0
        &&& self.border(path[0].0, path[0].1)
        &&& forall|k: int| 0 <= k < path.len() ==> self.clear((#[trigger] path[k]).0, path[k].1)
        &&& forall|k: int|
            #![trigger path[k]]
            0 < k < path.len() ==> side_by_side(path[k - 1], path[k])
    }

    /// The pixel can be reached from the edge of the image over pixels that can be seen through.
    pub open spec fn outside(self, x: int, y: int) -> bool {
        exists|path: Seq<(int, int)>| #[trigger] self.leads(path) && path.last() == (x, y)
    }

    /// The pixel belongs to the screen: it can be seen through, and nothing leads to it from the edge.
    pub open spec fn screen(self, x: int, y: int) -> bool {
        self.clear(x, y) && !self.outside(x, y)
    }

    /// Some pixel belongs to the screen.
    pub open spec fn has_screen(self) -> bool {
        exists|x: int, y: int| self.screen(x, y)
    }

    /// The rectangle holds the screen, and each of its sides touches it.
    pub open spec fn bounded_by(self, rect: Rect) -> bool {
        &&& forall|x: int, y: int| #[trigger] self.screen(x, y) ==> rect.holds(x, y)
        &&& exists|x: int, y: int| #[trigger] self.screen(x, y) && x == rect.x
        &&& exists|x: int, y: int| #[trigger] self.screen(x, y) && x == rect.x + rect.width - 1
        &&& exists|x: int, y: int| #[trigger] self.screen(x, y) && y == rect.y
        &&& exists|x: int, y: int| #[trigger] self.screen(x, y) && y == rect.y + rect.height - 1
    }
}

/// Two pixels share a side.
pub open spec fn side_by_side(a: (int, int), b: (int, int)) -> bool {
    ||| a.1 == b.1 && (a.0 == b.0 + 1 || b.0 == a.0 + 1)
    ||| a.0 == b.0 && (a.1 == b.1 + 1 || b.1 == a.1 + 1)
}

/// The place of a pixel of an image is one of its places.
pub proof fn lemma_at(width: int, height: int, x: int, y: int)
    requires
        0 <= x < width,
        0 <= y < height,
    ensures
        0 <= at(width, x, y) < width * height,
{
    assert(0 <= y * width) by (nonlinear_arith)
        requires
            0 <= y,
            0 < width,
    ;
    assert(y * width + width <= width * height) by (nonlinear_arith)
        requires
            0 <= y < height,
            0 < width,
    ;
}

/// Two pixels of an image have different places.
pub proof fn lemma_at_apart(width: int, x: int, y: int, x2: int, y2: int)
    requires
        0 <= x < width,
        0 <= x2 < width,
        at(width, x, y) == at(width, x2, y2),
    ensures
        x == x2 && y == y2,
{
    assert(y == y2) by (nonlinear_arith)
        requires
            0 <= x < width,
            0 <= x2 < width,
            y * width + x == y2 * width + x2,
    ;
}

/// How many pixels are not marked.
spec fn unmarked(marks: Seq<bool>) -> nat
    decreases marks.len(),
{
    if marks.len() == 0 {
        0
    } else {
        unmarked(marks.drop_last()) + if marks.last() {
            0nat
        } else {
            1nat
        }
    }
}

proof fn lemma_mark(marks: Seq<bool>, i: int)
    requires
        0 <= i < marks.len(),
        !marks[i],
    ensures
        unmarked(marks.update(i, true)) + 1 == unmarked(marks),
    decreases marks.len(),
{
    let after = marks.update(i, true);
    if i == marks.len() - 1 {
        assert(after.drop_last() =~= marks.drop_last());
    } else {
        assert(after.drop_last() =~= marks.drop_last().update(i, true));
        lemma_mark(marks.drop_last(), i);
    }
}

impl Raster {
    /// The pixel is marked.
    spec fn marked(self, marks: Seq<bool>, x: int, y: int) -> bool {
        self.within(x, y) && marks[at(self.width as int, x, y)]
    }

    /// The pixel is at the edge, or one beside it is marked.
    spec fn touched(self, marks: Seq<bool>, x: int, y: int) -> bool {
        ||| self.border(x, y)
        ||| self.marked(marks, x - 1, y)
        ||| self.marked(marks, x + 1, y)
        ||| self.marked(marks, x, y - 1)
        ||| self.marked(marks, x, y + 1)
    }

    /// The pixel is at the edge, or one beside it is outside.
    spec fn entry(self, x: int, y: int) -> bool {
        ||| self.border(x, y)
        ||| self.outside(x - 1, y)
        ||| self.outside(x + 1, y)
        ||| self.outside(x, y - 1)
        ||| self.outside(x, y + 1)
    }

    proof fn lemma_extends(self, x: int, y: int, from: (int, int))
        requires
            self.clear(x, y),
            self.outside(from.0, from.1),
            side_by_side(from, (x, y)),
        ensures
            self.outside(x, y),
    {
        let path = choose|path: Seq<(int, int)>| #[trigger]
            self.leads(path) && path.last() == (from.0, from.1);
        let longer = path.push((x, y));
        assert forall|k: int| 0 <= k < longer.len() implies self.clear(
            (#[trigger] longer[k]).0,
            longer[k].1,
        ) by {
            if k < path.len() {
                assert(longer[k] == path[k]);
            }
        }
        assert forall|k: int| #![trigger longer[k]] 0 < k < longer.len() implies side_by_side(
            longer[k - 1],
            longer[k],
        ) by {
            if k < path.len() {
                assert(longer[k] == path[k]);
                assert(side_by_side(path[k - 1], path[k]));
            } else {
                assert(longer[k - 1] == path.last());
            }
        }
        assert(longer[0] == path[0]);
        assert(self.leads(longer));
    }

    proof fn lemma_entry(self, x: int, y: int)
        requires
            self.clear(x, y),
            self.entry(x, y),
        ensures
            self.outside(x, y),
    {
        if self.border(x, y) {
            let path = seq![(x, y)];
            assert(path[0] == (x, y));
            assert(self.leads(path));
            assert(path.last() == (x, y));
        } else if self.outside(x - 1, y) {
            self.lemma_extends(x, y, (x - 1, y));
        } else if self.outside(x + 1, y) {
            self.lemma_extends(x, y, (x + 1, y));
        } else if self.outside(x, y - 1) {
            self.lemma_extends(x, y, (x, y - 1));
        } else {
            self.lemma_extends(x, y, (x, y + 1));
        }
    }

    proof fn lemma_all_marked(self, marks: Seq<bool>, path: Seq<(int, int)>, n: nat)
        requires
            self.leads(path),
            n < path.len(),
            forall|x: int, y: int|
                #![trigger self.touched(marks, x, y)]
                self.clear(x, y) && self.touched(marks, x, y) ==> self.marked(marks, x, y),
        ensures
            self.marked(marks, path[n as int].0, path[n as int].1),
        decreases n,
    {
        let (x, y) = path[n as int];
        assert(self.clear(x, y));
        if n > 0 {
            self.lemma_all_marked(marks, path, (n - 1) as nat);
            assert(side_by_side(path[n - 1], path[n as int]));
        }
        assert(self.touched(marks, x, y));
    }

    /// The alpha of a pixel.
    pub fn alpha_at(&self, x: u32, y: u32) -> (alpha: u8)
        requires
            self.wf(),
            self.within(x as int, y as int),
        ensures
            alpha == self.alpha(x as int, y as int),
    {
        proof {
            lemma_at(self.width as int, self.height as int, x as int, y as int);
        }
        let i: usize = self.pixel_index(x, y);
        let n: usize = self.data.len();
        proof {
            assert(4 * i + 3 < n);
        }
        self.data[4 * i + 3]
    }

    /// The place of a pixel among the pixels.
    pub fn pixel_index(&self, x: u32, y: u32) -> (index: usize)
        requires
            self.wf(),
            self.within(x as int, y as int),
        ensures
            index == at(self.width as int, x as int, y as int),
            index < self.width * self.height,
    {
        proof {
            lemma_at(self.width as int, self.height as int, x as int, y as int);
            assert(0 <= y * self.width) by (nonlinear_arith)
                requires
                    0 <= y,
                    0 <= self.width,
            ;
        }
        ((y * self.width) + x) as usize
    }
}

proof fn lemma_push_keeps(queue: Seq<(u32, u32)>, new: (u32, u32), pixel: (u32, u32))
    requires
        queue.contains(pixel) || pixel == new,
    ensures
        queue.push(new).contains(pixel),
{
    if pixel == new {
        assert(queue.push(new)[queue.len() as int] == pixel);
    } else {
        let k = choose|k: int| 0 <= k < queue.len() && queue[k] == pixel;
        assert(queue.push(new)[k] == pixel);
    }
}

/// The pixels at the edge of an image.
fn border_pixels(image: &Raster) -> (queue: Vec<(u32, u32)>)
    requires
        image.width > 0,
        image.height > 0,
    ensures
        forall|k: int|
            0 <= k < queue@.len() ==> image.border(
                (#[trigger] queue@[k]).0 as int,
                queue@[k].1 as int,
            ),
        forall|x: u32, y: u32|
            #![trigger image.border(x as int, y as int)]
            image.border(x as int, y as int) ==> queue@.contains((x, y)),
{
    let mut queue: Vec<(u32, u32)> = Vec::new();
    let mut x: u32 = 0;
    while x < image.width
        invariant
            image.width > 0,
            image.height > 0,
            x <= image.width,
            forall|k: int|
                0 <= k < queue@.len() ==> image.border(
                    (#[trigger] queue@[k]).0 as int,
                    queue@[k].1 as int,
                ),
            forall|i: u32| i < x ==> #[trigger] queue@.contains((i, 0u32)),
            forall|i: u32| i < x ==> #[trigger] queue@.contains((i, (image.height - 1) as u32)),
        decreases image.width - x,
    {
        let ghost before = queue@;
        queue.push((x, 0));
        let ghost between = queue@;
        queue.push((x, image.height - 1));
        proof {
            assert forall|i: u32| i < x + 1 implies #[trigger] queue@.contains((i, 0u32)) by {
                if i < x {
                    assert(before.contains((i, 0u32)));
                }
                lemma_push_keeps(before, (x, 0u32), (i, 0u32));
                lemma_push_keeps(between, (x, (image.height - 1) as u32), (i, 0u32));
            }
            assert forall|i: u32| i < x + 1 implies #[trigger] queue@.contains(
                (i, (image.height - 1) as u32),
            ) by {
                let pixel = (i, (image.height - 1) as u32);
                if i < x {
                    assert(before.contains(pixel));
                    lemma_push_keeps(before, (x, 0u32), pixel);
                }
                lemma_push_keeps(between, (x, (image.height - 1) as u32), pixel);
            }
        }
        x += 1;
    }
    let mut y: u32 = 0;
    while y < image.height
        invariant
            image.width > 0,
            image.height > 0,
            x == image.width,
            y <= image.height,
            forall|k: int|
                0 <= k < queue@.len() ==> image.border(
                    (#[trigger] queue@[k]).0 as int,
                    queue@[k].1 as int,
                ),
            forall|i: u32| i < x ==> #[trigger] queue@.contains((i, 0u32)),
            forall|i: u32| i < x ==> #[trigger] queue@.contains((i, (image.height - 1) as u32)),
            forall|i: u32| i < y ==> #[trigger] queue@.contains((0u32, i)),
            forall|i: u32| i < y ==> #[trigger] queue@.contains(((image.width - 1) as u32, i)),
        decreases image.height - y,
    {
        let ghost before = queue@;
        let ghost first = (0u32, y);
        let ghost second = ((image.width - 1) as u32, y);
        queue.push((0, y));
        let ghost between = queue@;
        queue.push((image.width - 1, y));
        proof {
            assert forall|pixel: (u32, u32)| before.contains(pixel) || pixel == first || pixel
                == second implies #[trigger] queue@.contains(pixel) by {
                if before.contains(pixel) || pixel == first {
                    lemma_push_keeps(before, first, pixel);
                }
                lemma_push_keeps(between, second, pixel);
            }
        }
        y += 1;
    }
    proof {
        assert forall|x: u32, y: u32|
            #![trigger image.border(x as int, y as int)]
            image.border(x as int, y as int) implies queue@.contains((x, y)) by {
            if y == 0 {
                assert(queue@.contains((x, 0u32)));
            } else if y == image.height - 1 {
                assert(queue@.contains((x, (image.height - 1) as u32)));
            } else if x == 0 {
                assert(queue@.contains((0u32, y)));
            } else {
                assert(queue@.contains(((image.width - 1) as u32, y)));
            }
        }
    }
    queue
}

/// Marks the pixels that can be reached from the edge over pixels that can be seen through.
#[verifier::rlimit(60)]
pub fn outside_pixels(image: &Raster) -> (marks: Vec<bool>)
    requires
        image.wf(),
        image.width > 0,
        image.height > 0,
    ensures
        marks@.len() == image.width * image.height,
        forall|x: int, y: int|
            #![trigger image.outside(x, y)]
            image.within(x, y) ==> marks@[at(image.width as int, x, y)] == image.outside(x, y),
{
    let ghost w = image.width as int;
    let ghost h = image.height as int;
    proof {
        assert(0 <= w * h) by (nonlinear_arith)
            requires
                0 < w,
                0 < h,
        ;
    }
    let count: usize = image.data.len() / 4;
    let mut marks: Vec<bool> = vec![false; count];
    let mut queue = border_pixels(image);
    proof {
        assert forall|x: int, y: int|
            #![trigger image.marked(marks@, x, y)]
            image.marked(marks@, x, y) implies image.outside(x, y) by {
            lemma_at(w, h, x, y);
        }
        assert forall|x: int, y: int|
            #![trigger image.touched(marks@, x, y)]
            image.clear(x, y) && image.touched(marks@, x, y) && !image.marked(
                marks@,
                x,
                y,
            ) implies queue@.contains((x as u32, y as u32)) by {
            image.lemma_no_marks(marks@, x, y);
            assert(image.border((x as u32) as int, (y as u32) as int));
        }
    }
    while queue.len() > 0
        invariant
            image.wf(),
            w == image.width > 0,
            h == image.height > 0,
            marks@.len() == w * h,
            forall|k: int|
                0 <= k < queue@.len() ==> image.within(
                    (#[trigger] queue@[k]).0 as int,
                    queue@[k].1 as int,
                ),
            forall|k: int|
                0 <= k < queue@.len() ==> image.entry(
                    (#[trigger] queue@[k]).0 as int,
                    queue@[k].1 as int,
                ),
            forall|x: int, y: int|
                #![trigger image.marked(marks@, x, y)]
                image.marked(marks@, x, y) ==> image.outside(x, y),
            forall|x: int, y: int|
                #![trigger image.touched(marks@, x, y)]
                image.clear(x, y) && image.touched(marks@, x, y) && !image.marked(marks@, x, y)
                    ==> queue@.contains((x as u32, y as u32)),
        decreases 5 * unmarked(marks@) + queue@.len(),
    {
        let ghost waiting = queue@;
        let ghost old_marks = marks@;
        if let Some(pixel) = queue.pop() {
            let x: u32 = pixel.0;
            let y: u32 = pixel.1;
            proof {
                assert(pixel == waiting[waiting.len() - 1]);
                assert(image.within(x as int, y as int));
                assert(image.entry(x as int, y as int));
                lemma_at(w, h, x as int, y as int);
                assert forall|p: (u32, u32)| waiting.contains(p) && p
                    != pixel implies #[trigger] queue@.contains(p) by {
                    let k = choose|k: int| 0 <= k < waiting.len() && waiting[k] == p;
                    assert(queue@[k] == p);
                }
            }
            let index: usize = image.pixel_index(x, y);
            if !marks[index] && image.alpha_at(x, y) <= CLEAR_ALPHA {
                let ghost rest = queue@;
                marks.set(index, true);
                proof {
                    image.lemma_entry(x as int, y as int);
                    lemma_mark(old_marks, index as int);
                    image.lemma_marks(old_marks, marks@, x as int, y as int);
                }
                push_beside(image, &mut queue, x, y);
                proof {
                    assert forall|a: int, b: int|
                        #![trigger image.touched(marks@, a, b)]
                        image.clear(a, b) && image.touched(marks@, a, b) && !image.marked(
                            marks@,
                            a,
                            b,
                        ) implies queue@.contains((a as u32, b as u32)) by {
                        assert(!image.marked(old_marks, a, b));
                        assert((a, b) != (x as int, y as int));
                        if image.touched(old_marks, a, b) {
                            assert(waiting.contains((a as u32, b as u32)));
                            assert(rest.contains((a as u32, b as u32)));
                        } else {
                            assert(side_by_side((a, b), (x as int, y as int)));
                            assert(image.within((a as u32) as int, (b as u32) as int));
                        }
                    }
                    assert forall|k: int| 0 <= k < queue@.len() implies image.entry(
                        (#[trigger] queue@[k]).0 as int,
                        queue@[k].1 as int,
                    ) by {
                        if k < rest.len() {
                            assert(queue@[k] == waiting[k]);
                        } else {
                            assert(side_by_side(
                                (queue@[k].0 as int, queue@[k].1 as int),
                                (x as int, y as int),
                            ));
                        }
                    }
                }
            } else {
                proof {
                    assert forall|a: int, b: int|
                        #![trigger image.touched(marks@, a, b)]
                        image.clear(a, b) && image.touched(marks@, a, b) && !image.marked(
                            marks@,
                            a,
                            b,
                        ) implies queue@.contains((a as u32, b as u32)) by {
                        assert(waiting.contains((a as u32, b as u32)));
                    }
                }
            }
        }
    }
    proof {
        assert forall|x: int, y: int|
            #![trigger image.touched(marks@, x, y)]
            image.clear(x, y) && image.touched(marks@, x, y) implies image.marked(marks@, x, y) by {
            if !image.marked(marks@, x, y) {
                assert(queue@.contains((x as u32, y as u32)));
            }
        }
        assert forall|x: int, y: int|
            #![trigger image.outside(x, y)]
            image.within(x, y) implies marks@[at(image.width as int, x, y)] == image.outside(
            x,
            y,
        ) by {
            if image.outside(x, y) {
                let path = choose|path: Seq<(int, int)>| #[trigger]
                    image.leads(path) && path.last() == (x, y);
                image.lemma_all_marked(marks@, path, (path.len() - 1) as nat);
            }
            if marks@[at(image.width as int, x, y)] {
                assert(image.marked(marks@, x, y));
            }
        }
    }
    marks
}

impl Raster {
    proof fn lemma_no_marks(self, marks: Seq<bool>, x: int, y: int)
        requires
            marks.len() == self.width * self.height,
            forall|i: int| 0 <= i < marks.len() ==> !#[trigger] marks[i],
            self.touched(marks, x, y),
        ensures
            self.border(x, y),
    {
        let w = self.width as int;
        let h = self.height as int;
        if self.within(x - 1, y) {
            lemma_at(w, h, x - 1, y);
        }
        if self.within(x + 1, y) {
            lemma_at(w, h, x + 1, y);
        }
        if self.within(x, y - 1) {
            lemma_at(w, h, x, y - 1);
        }
        if self.within(x, y + 1) {
            lemma_at(w, h, x, y + 1);
        }
    }

    /// What one more mark changes.
    proof fn lemma_marks(self, before: Seq<bool>, after: Seq<bool>, x: int, y: int)
        requires
            self.within(x, y),
            before.len() == self.width * self.height,
            after == before.update(at(self.width as int, x, y), true),
        ensures
            forall|a: int, b: int|
                #![trigger self.marked(after, a, b)]
                self.marked(after, a, b) <==> (self.marked(before, a, b) || (a, b) == (x, y)),
    {
        let w = self.width as int;
        let h = self.height as int;
        lemma_at(w, h, x, y);
        assert forall|a: int, b: int|
            #![trigger self.marked(after, a, b)]
            self.marked(after, a, b) <==> (self.marked(before, a, b) || (a, b) == (x, y)) by {
            if self.within(a, b) {
                lemma_at(w, h, a, b);
                if at(w, a, b) == at(w, x, y) {
                    lemma_at_apart(w, a, b, x, y);
                }
            }
        }
    }
}

/// Adds the pixels beside one to those that wait.
fn push_beside(image: &Raster, queue: &mut Vec<(u32, u32)>, x: u32, y: u32)
    requires
        image.within(x as int, y as int),
    ensures
        final(queue)@.len() <= old(queue)@.len() + 4,
        final(queue)@.len() >= old(queue)@.len(),
        forall|k: int|
            0 <= k < old(queue)@.len() ==> #[trigger] final(queue)@[k] == old(queue)@[k],
        forall|k: int|
            old(queue)@.len() <= k < final(queue)@.len() ==> image.within(
                (#[trigger] final(queue)@[k]).0 as int,
                final(queue)@[k].1 as int,
            ) && side_by_side(
                (final(queue)@[k].0 as int, final(queue)@[k].1 as int),
                (x as int, y as int),
            ),
        forall|p: (u32, u32)| old(queue)@.contains(p) ==> #[trigger] final(queue)@.contains(p),
        forall|p: (u32, u32)|
            image.within(p.0 as int, p.1 as int) && side_by_side(
                (p.0 as int, p.1 as int),
                (x as int, y as int),
            ) ==> #[trigger] final(queue)@.contains(p),
{
    let ghost s0 = queue@;
    if x > 0 {
        queue.push((x - 1, y));
    }
    let ghost s1 = queue@;
    if x + 1 < image.width {
        queue.push((x + 1, y));
    }
    let ghost s2 = queue@;
    if y > 0 {
        queue.push((x, y - 1));
    }
    let ghost s3 = queue@;
    if y + 1 < image.height {
        queue.push((x, y + 1));
    }
    proof {
        let s4 = queue@;
        assert forall|p: (u32, u32)|
            s0.contains(p) || (x > 0 && p == ((x - 1) as u32, y)) implies #[trigger] s1.contains(
            p,
        ) by {
            if x > 0 {
                lemma_push_keeps(s0, ((x - 1) as u32, y), p);
            }
        }
        assert forall|p: (u32, u32)|
            s1.contains(p) || (x + 1 < image.width && p == (
                (x + 1) as u32,
                y,
            )) implies #[trigger] s2.contains(p) by {
            if x + 1 < image.width {
                lemma_push_keeps(s1, ((x + 1) as u32, y), p);
            }
        }
        assert forall|p: (u32, u32)|
            s2.contains(p) || (y > 0 && p == (x, (y - 1) as u32)) implies #[trigger] s3.contains(
            p,
        ) by {
            if y > 0 {
                lemma_push_keeps(s2, (x, (y - 1) as u32), p);
            }
        }
        assert forall|p: (u32, u32)|
            s3.contains(p) || (y + 1 < image.height && p == (
                x,
                (y + 1) as u32,
            )) implies #[trigger] s4.contains(p) by {
            if y + 1 < image.height {
                lemma_push_keeps(s3, (x, (y + 1) as u32), p);
            }
        }
        assert forall|p: (u32, u32)| s0.contains(p) implies #[trigger] s4.contains(p) by {
            assert(s1.contains(p));
            assert(s2.contains(p));
            assert(s3.contains(p));
        }
        assert forall|p: (u32, u32)|
            image.within(p.0 as int, p.1 as int) && side_by_side(
                (p.0 as int, p.1 as int),
                (x as int, y as int),
            ) implies #[trigger] s4.contains(p) by {
            assert(s1.contains(p) || s2.contains(p) || s3.contains(p) || s4.contains(p));
            assert(s1.contains(p) ==> s2.contains(p));
            assert(s2.contains(p) ==> s3.contains(p));
        }
    }
}

} // verus!
