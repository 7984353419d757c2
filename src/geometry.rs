use vstd::prelude::*;

verus! {

/// Axis-aligned rectangle in device pixel coordinates.
///
/// A well-formed rectangle has its right and bottom edges representable as `i16`.
#[derive(Clone, Copy, PartialEq, Eq, Structural, Debug)]
pub struct Rect {
    pub x: i16,
    pub y: i16,
    pub width: u16,
    pub height: u16,
}

impl Rect {
    pub open spec fn wf(self) -> bool {
        self.x + self.width <= i16::MAX && self.y + self.height <= i16::MAX
    }

    /// Exclusive right edge.
    pub open spec fn right(self) -> int {
        self.x + self.width
    }

    /// Exclusive bottom edge.
    pub open spec fn bottom(self) -> int {
        self.y + self.height
    }

    pub open spec fn spec_is_empty(self) -> bool {
        self.width == 0 || self.height == 0
    }

    pub open spec fn has_point(self, px: int, py: int) -> bool {
        self.x <= px < self.right() && self.y <= py < self.bottom()
    }

    /// Every point of `inner` is a point of `self` (an empty `inner` is contained anywhere).
    pub open spec fn spec_contains_rect(self, inner: Rect) -> bool {
        inner.spec_is_empty() || (self.x <= inner.x && inner.right() <= self.right()
            && self.y <= inner.y && inner.bottom() <= self.bottom())
    }

    /// The two rectangles share at least one point.
    pub open spec fn spec_overlaps(self, o: Rect) -> bool {
        !self.spec_is_empty() && !o.spec_is_empty() && self.x < o.right() && o.x < self.right()
            && self.y < o.bottom() && o.y < self.bottom()
    }

    /// Smallest rectangle holding both; an empty operand contributes nothing.
    pub open spec fn spec_union(self, o: Rect) -> Rect {
        if self.spec_is_empty() {
            o
        } else if o.spec_is_empty() {
            self
        } else {
            let x0 = if self.x <= o.x { self.x } else { o.x };
            let y0 = if self.y <= o.y { self.y } else { o.y };
            let x1 = if self.right() >= o.right() { self.right() } else { o.right() };
            let y1 = if self.bottom() >= o.bottom() { self.bottom() } else { o.bottom() };
            Rect { x: x0, y: y0, width: (x1 - x0) as u16, height: (y1 - y0) as u16 }
        }
    }

    pub fn new(x: i16, y: i16, width: u16, height: u16) -> (r: Rect)
        requires
            x + width <= i16::MAX,
            y + height <= i16::MAX,
        ensures
            r == (Rect { x, y, width, height }),
            r.wf(),
    {
        Rect { x, y, width, height }
    }

    pub fn is_empty(&self) -> (r: bool)
        ensures
            r == self.spec_is_empty(),
    {
        self.width == 0 || self.height == 0
    }

    pub fn contains_rect(&self, inner: &Rect) -> (r: bool)
        ensures
            r == self.spec_contains_rect(*inner),
    {
        if inner.is_empty() {
            return true;
        }
        let sr = self.x as i32 + self.width as i32;
        let sb = self.y as i32 + self.height as i32;
        let ir = inner.x as i32 + inner.width as i32;
        let ib = inner.y as i32 + inner.height as i32;
        self.x <= inner.x && ir <= sr && self.y <= inner.y && ib <= sb
    }

    pub fn overlaps(&self, o: &Rect) -> (r: bool)
        ensures
            r == self.spec_overlaps(*o),
    {
        if self.is_empty() || o.is_empty() {
            return false;
        }
        let sr = self.x as i32 + self.width as i32;
        let sb = self.y as i32 + self.height as i32;
        let or = o.x as i32 + o.width as i32;
        let ob = o.y as i32 + o.height as i32;
        self.x as i32 <= or - 1 && o.x as i32 <= sr - 1 && self.y as i32 <= ob - 1 && o.y as i32
            <= sb - 1
    }

    /// Smallest rectangle that contains both; an empty operand is ignored.
    pub fn union(&self, o: &Rect) -> (r: Rect)
        requires
            self.wf(),
            o.wf(),
        ensures
            r == self.spec_union(*o),
            r.wf(),
            r.spec_contains_rect(*self),
            r.spec_contains_rect(*o),
            self.spec_is_empty() ==> r == *o,
            !self.spec_is_empty() && o.spec_is_empty() ==> r == *self,
            !self.spec_is_empty() && !o.spec_is_empty() ==> {
                &&& r.x == if self.x <= o.x { self.x } else { o.x }
                &&& r.y == if self.y <= o.y { self.y } else { o.y }
                &&& r.right() == if self.right() >= o.right() { self.right() } else { o.right() }
                &&& r.bottom() == if self.bottom() >= o.bottom() { self.bottom() } else { o.bottom() }
            },
    {
        if self.is_empty() {
            return *o;
        }
        if o.is_empty() {
            return *self;
        }
        let x0: i16 = if self.x <= o.x { self.x } else { o.x };
        let y0: i16 = if self.y <= o.y { self.y } else { o.y };
        let sr: i32 = self.x as i32 + self.width as i32;
        let sb: i32 = self.y as i32 + self.height as i32;
        let or: i32 = o.x as i32 + o.width as i32;
        let ob: i32 = o.y as i32 + o.height as i32;
        let x1: i32 = if sr >= or { sr } else { or };
        let y1: i32 = if sb >= ob { sb } else { ob };
        Rect { x: x0, y: y0, width: (x1 - x0 as i32) as u16, height: (y1 - y0 as i32) as u16 }
    }
}

} // verus!
