//! Integer geometry: points, sizes, rectangles, insets and regions.
//!
//! Coordinates are signed 64-bit integers in logical pixels. Arithmetic that
//! could leave the `i64` range saturates at its bounds.
use vstd::prelude::*;

verus! {

/// `v` brought into the `i64` range.
pub open spec fn clamp(v: int) -> int {
    if v < i64::MIN {
        i64::MIN as int
    } else if v > i64::MAX {
        i64::MAX as int
    } else {
        v
    }
}

pub open spec fn min_of(a: i64, b: i64) -> i64 {
    if a <= b {
        a
    } else {
        b
    }
}

pub open spec fn max_of(a: i64, b: i64) -> i64 {
    if a >= b {
        a
    } else {
        b
    }
}

/// Saturating addition.
pub fn sat_add(a: i64, b: i64) -> (r: i64)
    ensures
        r == clamp(a + b),
{
    let s: i128 = a as i128 + b as i128;
    if s > i64::MAX as i128 {
        i64::MAX
    } else if s < i64::MIN as i128 {
        i64::MIN
    } else {
        s as i64
    }
}

/// Saturating subtraction.
pub fn sat_sub(a: i64, b: i64) -> (r: i64)
    ensures
        r == clamp(a - b),
{
    let s: i128 = a as i128 - b as i128;
    if s > i64::MAX as i128 {
        i64::MAX
    } else if s < i64::MIN as i128 {
        i64::MIN
    } else {
        s as i64
    }
}

fn min_i64(a: i64, b: i64) -> (r: i64)
    ensures
        r == min_of(a, b),
{
    if a <= b {
        a
    } else {
        b
    }
}

fn max_i64(a: i64, b: i64) -> (r: i64)
    ensures
        r == max_of(a, b),
{
    if a >= b {
        a
    } else {
        b
    }
}

/// A point in the plane.
#[derive(Clone, Copy, Debug, PartialEq, Eq, Structural)]
pub struct Point {
    pub x: i64,
    pub y: i64,
}

impl Point {
    pub fn new(x: i64, y: i64) -> (r: Point)
        ensures
            r.x == x,
            r.y == y,
    {
        Point { x, y }
    }

    pub open spec fn spec_minus(self, o: Point) -> Point {
        Point { x: clamp(self.x - o.x) as i64, y: clamp(self.y - o.y) as i64 }
    }

    pub open spec fn spec_plus(self, o: Point) -> Point {
        Point { x: clamp(self.x + o.x) as i64, y: clamp(self.y + o.y) as i64 }
    }

    /// This point expressed relative to `o` (`self - o`, saturating).
    pub fn minus(self, o: Point) -> (r: Point)
        ensures
            r == self.spec_minus(o),
    {
        Point { x: sat_sub(self.x, o.x), y: sat_sub(self.y, o.y) }
    }

    /// This point moved by the offset `o` (`self + o`, saturating).
    pub fn plus(self, o: Point) -> (r: Point)
        ensures
            r == self.spec_plus(o),
    {
        Point { x: sat_add(self.x, o.x), y: sat_add(self.y, o.y) }
    }
}

/// A width and a height.
#[derive(Clone, Copy, Debug, PartialEq, Eq, Structural)]
pub struct Size {
    pub width: i64,
    pub height: i64,
}

impl Size {
    pub fn new(width: i64, height: i64) -> (r: Size)
        ensures
            r.width == width,
            r.height == height,
    {
        Size { width, height }
    }

    pub fn zero() -> (r: Size)
        ensures
            r.width == 0,
            r.height == 0,
    {
        Size { width: 0, height: 0 }
    }

    /// The rectangle with this size at the origin.
    pub fn to_rect(self) -> (r: Rect)
        ensures
            r == Rect::spec_from_origin_size(Point { x: 0, y: 0 }, self),
    {
        Rect::from_origin_size(Point::new(0, 0), self)
    }
}

/// Amounts by which a rectangle extends beyond another, on each side.
#[derive(Clone, Copy, Debug, PartialEq, Eq, Structural)]
pub struct Insets {
    pub x0: i64,
    pub y0: i64,
    pub x1: i64,
    pub y1: i64,
}

impl Insets {
    pub fn new(x0: i64, y0: i64, x1: i64, y1: i64) -> (r: Insets)
        ensures
            r == (Insets { x0, y0, x1, y1 }),
    {
        Insets { x0, y0, x1, y1 }
    }

    pub fn zero() -> (r: Insets)
        ensures
            r == (Insets { x0: 0, y0: 0, x1: 0, y1: 0 }),
    {
        Insets { x0: 0, y0: 0, x1: 0, y1: 0 }
    }
}

/// An axis-aligned rectangle given by two corners.
#[derive(Clone, Copy, Debug, PartialEq, Eq, Structural)]
pub struct Rect {
    pub x0: i64,
    pub y0: i64,
    pub x1: i64,
    pub y1: i64,
}

impl Rect {
    pub open spec fn spec_abs(self) -> Rect {
        Rect {
            x0: min_of(self.x0, self.x1),
            y0: min_of(self.y0, self.y1),
            x1: max_of(self.x0, self.x1),
            y1: max_of(self.y0, self.y1),
        }
    }

    pub open spec fn spec_from_origin_size(origin: Point, size: Size) -> Rect {
        (Rect {
            x0: origin.x,
            y0: origin.y,
            x1: clamp(origin.x + size.width) as i64,
            y1: clamp(origin.y + size.height) as i64,
        }).spec_abs()
    }

    pub open spec fn spec_union(self, o: Rect) -> Rect {
        Rect {
            x0: min_of(self.x0, o.x0),
            y0: min_of(self.y0, o.y0),
            x1: max_of(self.x1, o.x1),
            y1: max_of(self.y1, o.y1),
        }
    }

    pub open spec fn spec_intersect(self, o: Rect) -> Rect {
        let x0 = max_of(self.x0, o.x0);
        let y0 = max_of(self.y0, o.y0);
        Rect { x0, y0, x1: max_of(min_of(self.x1, o.x1), x0), y1: max_of(min_of(self.y1, o.y1), y0) }
    }

    /// The area is positive: width and height are both non-zero and of one sign.
    pub open spec fn spec_has_area(self) -> bool {
        (self.x1 > self.x0 && self.y1 > self.y0) || (self.x1 < self.x0 && self.y1 < self.y0)
    }

    /// The point lies in the half-open extent `[min, max)` on both axes.
    pub open spec fn spec_contains(self, p: Point) -> bool {
        min_of(self.x0, self.x1) <= p.x < max_of(self.x0, self.x1) && min_of(self.y0, self.y1)
            <= p.y < max_of(self.y0, self.y1)
    }

    /// The rectangle grown by `i` on each side (after normalising its corners).
    pub open spec fn spec_add_insets(self, i: Insets) -> Rect {
        let a = self.spec_abs();
        Rect {
            x0: clamp(a.x0 - i.x0) as i64,
            y0: clamp(a.y0 - i.y0) as i64,
            x1: clamp(a.x1 + i.x1) as i64,
            y1: clamp(a.y1 + i.y1) as i64,
        }
    }

    /// The insets by which `self` extends beyond `o`.
    pub open spec fn spec_insets_from(self, o: Rect) -> Insets {
        Insets {
            x0: clamp(o.x0 - self.x0) as i64,
            y0: clamp(o.y0 - self.y0) as i64,
            x1: clamp(self.x1 - o.x1) as i64,
            y1: clamp(self.y1 - o.y1) as i64,
        }
    }

    pub open spec fn spec_translate_back(self, o: Point) -> Rect {
        Rect {
            x0: clamp(self.x0 - o.x) as i64,
            y0: clamp(self.y0 - o.y) as i64,
            x1: clamp(self.x1 - o.x) as i64,
            y1: clamp(self.y1 - o.y) as i64,
        }
    }

    pub open spec fn spec_translate(self, o: Point) -> Rect {
        Rect {
            x0: clamp(self.x0 + o.x) as i64,
            y0: clamp(self.y0 + o.y) as i64,
            x1: clamp(self.x1 + o.x) as i64,
            y1: clamp(self.y1 + o.y) as i64,
        }
    }

    /// `self` lies inside `larger`, corner by corner.
    pub open spec fn spec_inside(self, larger: Rect) -> bool {
        self.x0 >= larger.x0 && self.x1 <= larger.x1 && self.y0 >= larger.y0 && self.y1
            <= larger.y1
    }

    pub fn new(x0: i64, y0: i64, x1: i64, y1: i64) -> (r: Rect)
        ensures
            r == (Rect { x0, y0, x1, y1 }),
    {
        Rect { x0, y0, x1, y1 }
    }

    pub fn zero() -> (r: Rect)
        ensures
            r == (Rect { x0: 0, y0: 0, x1: 0, y1: 0 }),
    {
        Rect { x0: 0, y0: 0, x1: 0, y1: 0 }
    }

    /// The same rectangle with its corners ordered.
    pub fn abs(self) -> (r: Rect)
        ensures
            r == self.spec_abs(),
    {
        Rect {
            x0: min_i64(self.x0, self.x1),
            y0: min_i64(self.y0, self.y1),
            x1: max_i64(self.x0, self.x1),
            y1: max_i64(self.y0, self.y1),
        }
    }

    pub fn from_origin_size(origin: Point, size: Size) -> (r: Rect)
        ensures
            r == Rect::spec_from_origin_size(origin, size),
    {
        let r = Rect {
            x0: origin.x,
            y0: origin.y,
            x1: sat_add(origin.x, size.width),
            y1: sat_add(origin.y, size.height),
        };
        r.abs()
    }

    pub fn origin(self) -> (r: Point)
        ensures
            r == (Point { x: self.x0, y: self.y0 }),
    {
        Point { x: self.x0, y: self.y0 }
    }

    /// A rectangle at the same origin with the given size.
    pub fn with_size(self, size: Size) -> (r: Rect)
        ensures
            r == Rect::spec_from_origin_size(Point { x: self.x0, y: self.y0 }, size),
    {
        Rect::from_origin_size(self.origin(), size)
    }

    /// The smallest rectangle holding both.
    pub fn union(self, o: Rect) -> (r: Rect)
        ensures
            r == self.spec_union(o),
    {
        Rect {
            x0: min_i64(self.x0, o.x0),
            y0: min_i64(self.y0, o.y0),
            x1: max_i64(self.x1, o.x1),
            y1: max_i64(self.y1, o.y1),
        }
    }

    /// The common part of both; empty (zero width or height) when they do not meet.
    pub fn intersect(self, o: Rect) -> (r: Rect)
        ensures
            r == self.spec_intersect(o),
    {
        let x0 = max_i64(self.x0, o.x0);
        let y0 = max_i64(self.y0, o.y0);
        let x1 = min_i64(self.x1, o.x1);
        let y1 = min_i64(self.y1, o.y1);
        Rect { x0, y0, x1: max_i64(x1, x0), y1: max_i64(y1, y0) }
    }

    pub fn has_area(self) -> (r: bool)
        ensures
            r == self.spec_has_area(),
    {
        (self.x1 > self.x0 && self.y1 > self.y0) || (self.x1 < self.x0 && self.y1 < self.y0)
    }

    /// Winding number of the rectangle's outline around `p`: zero outside,
    /// otherwise `1` or `-1` according to the orientation of the corners.
    pub fn winding(self, p: Point) -> (r: i32)
        ensures
            (r != 0) == self.spec_contains(p),
    {
        let xmin = min_i64(self.x0, self.x1);
        let xmax = max_i64(self.x0, self.x1);
        let ymin = min_i64(self.y0, self.y1);
        let ymax = max_i64(self.y0, self.y1);
        if p.x >= xmin && p.x < xmax && p.y >= ymin && p.y < ymax {
            if (self.x1 > self.x0) != (self.y1 > self.y0) {
                -1
            } else {
                1
            }
        } else {
            0
        }
    }

    pub fn add_insets(self, i: Insets) -> (r: Rect)
        ensures
            r == self.spec_add_insets(i),
    {
        let a = self.abs();
        Rect {
            x0: sat_sub(a.x0, i.x0),
            y0: sat_sub(a.y0, i.y0),
            x1: sat_add(a.x1, i.x1),
            y1: sat_add(a.y1, i.y1),
        }
    }

    pub fn insets_from(self, o: Rect) -> (r: Insets)
        ensures
            r == self.spec_insets_from(o),
    {
        Insets {
            x0: sat_sub(o.x0, self.x0),
            y0: sat_sub(o.y0, self.y0),
            x1: sat_sub(self.x1, o.x1),
            y1: sat_sub(self.y1, o.y1),
        }
    }

    /// The rectangle moved by `o`.
    pub fn translate(self, o: Point) -> (r: Rect)
        ensures
            r == self.spec_translate(o),
    {
        Rect {
            x0: sat_add(self.x0, o.x),
            y0: sat_add(self.y0, o.y),
            x1: sat_add(self.x1, o.x),
            y1: sat_add(self.y1, o.y),
        }
    }

    /// The rectangle moved by `-o`.
    pub fn translate_back(self, o: Point) -> (r: Rect)
        ensures
            r == self.spec_translate_back(o),
    {
        Rect {
            x0: sat_sub(self.x0, o.x),
            y0: sat_sub(self.y0, o.y),
            x1: sat_sub(self.x1, o.x),
            y1: sat_sub(self.y1, o.y),
        }
    }
}

/// Return `true` if all of `smaller` is within `larger`.
pub fn rect_contains(larger: &Rect, smaller: &Rect) -> (r: bool)
    ensures
        r == smaller.spec_inside(*larger),
{
    smaller.x0 >= larger.x0 && smaller.x1 <= larger.x1 && smaller.y0 >= larger.y0 && smaller.y1
        <= larger.y1
}

/// Each rectangle of `s` clipped to `r`, those of positive area, in order.
pub open spec fn clip_all(s: Seq<Rect>, r: Rect) -> Seq<Rect>
    decreases s.len(),
{
    if s.len() == 0 {
        s
    } else {
        let c = s.last().spec_intersect(r);
        if c.spec_has_area() {
            clip_all(s.drop_last(), r).push(c)
        } else {
            clip_all(s.drop_last(), r)
        }
    }
}

/// A set of rectangles, the area that is to be repainted.
#[derive(Clone, Debug)]
pub struct Region {
    pub rects: Vec<Rect>,
}

impl Region {
    pub open spec fn spec_intersects(self, r: Rect) -> bool {
        exists|i: int| 0 <= i < self.rects@.len() && (#[trigger] self.rects@[i]).spec_intersect(r).spec_has_area()
    }

    pub fn empty() -> (r: Region)
        ensures
            r.rects@ == Seq::<Rect>::empty(),
    {
        Region { rects: Vec::new() }
    }

    pub fn from_rect(rect: Rect) -> (r: Region)
        ensures
            r.rects@ == seq![rect],
    {
        let mut rects: Vec<Rect> = Vec::new();
        rects.push(rect);
        Region { rects }
    }

    /// A copy of this region.
    pub fn copy(&self) -> (r: Region)
        ensures
            r.rects@ == self.rects@,
    {
        let mut rects: Vec<Rect> = Vec::new();
        let mut i: usize = 0;
        while i < self.rects.len()
            invariant
                i <= self.rects@.len(),
                rects@ == self.rects@.subrange(0, i as int),
            decreases self.rects@.len() - i,
        {
            rects.push(self.rects[i]);
            assert(self.rects@.subrange(0, i as int + 1) =~= self.rects@.subrange(0, i as int).push(
                self.rects@[i as int],
            ));
            i += 1;
        }
        assert(self.rects@.subrange(0, self.rects@.len() as int) =~= self.rects@);
        Region { rects }
    }

    /// Whether some rectangle of the region meets `r` with positive area.
    pub fn intersects(&self, r: Rect) -> (b: bool)
        ensures
            b == self.spec_intersects(r),
    {
        let mut i: usize = 0;
        while i < self.rects.len()
            invariant
                i <= self.rects@.len(),
                forall|j: int| 0 <= j < i ==> !(#[trigger] self.rects@[j]).spec_intersect(r).spec_has_area(),
            decreases self.rects@.len() - i,
        {
            if self.rects[i].intersect(r).has_area() {
                return true;
            }
            i += 1;
        }
        false
    }

    /// A copy of this region, each rectangle clipped to `r`, keeping those with
    /// positive area.
    pub fn intersected_with(&self, r: Rect) -> (out: Region)
        ensures
            out.rects@ == clip_all(self.rects@, r),
    {
        let mut rects: Vec<Rect> = Vec::new();
        let mut i: usize = 0;
        while i < self.rects.len()
            invariant
                i <= self.rects@.len(),
                rects@ == clip_all(self.rects@.subrange(0, i as int), r),
            decreases self.rects@.len() - i,
        {
            let c = self.rects[i].intersect(r);
            proof {
                let s = self.rects@.subrange(0, i as int + 1);
                assert(s.drop_last() =~= self.rects@.subrange(0, i as int));
            }
            if c.has_area() {
                rects.push(c);
            }
            i += 1;
        }
        assert(self.rects@.subrange(0, self.rects@.len() as int) =~= self.rects@);
        Region { rects }
    }

    /// A copy of this region moved by `-o`.
    pub fn translated_back(&self, o: Point) -> (out: Region)
        ensures
            out.rects@ == self.rects@.map_values(|x: Rect| x.spec_translate_back(o)),
    {
        let mut rects: Vec<Rect> = Vec::new();
        let mut i: usize = 0;
        while i < self.rects.len()
            invariant
                i <= self.rects@.len(),
                rects@ == self.rects@.subrange(0, i as int).map_values(
                    |x: Rect| x.spec_translate_back(o),
                ),
            decreases self.rects@.len() - i,
        {
            rects.push(self.rects[i].translate_back(o));
            proof {
                assert(self.rects@.subrange(0, i as int + 1).map_values(
                    |x: Rect| x.spec_translate_back(o),
                ) =~= self.rects@.subrange(0, i as int).map_values(
                    |x: Rect| x.spec_translate_back(o),
                ).push(self.rects@[i as int].spec_translate_back(o)));
            }
            i += 1;
        }
        assert(self.rects@.subrange(0, self.rects@.len() as int) =~= self.rects@);
        Region { rects }
    }
}

} // verus!
