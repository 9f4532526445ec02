use vstd::prelude::*;

verus! {

/// A non-empty size in whole pixels.
#[derive(Clone, Copy, Debug, PartialEq, Eq, Structural)]
pub struct ScreenSize {
    pub width: u32,
    pub height: u32,
}

/// A rectangle of whole pixels: `x .. x + width` by `y .. y + height`.
#[derive(Clone, Copy, Debug, PartialEq, Eq, Structural)]
pub struct ScreenRect {
    pub x: i32,
    pub y: i32,
    pub width: u32,
    pub height: u32,
}

pub open spec fn spec_min(a: int, b: int) -> int {
    if a <= b { a } else { b }
}

pub open spec fn spec_max(a: int, b: int) -> int {
    if a >= b { a } else { b }
}

impl ScreenSize {
    pub open spec fn wf(self) -> bool {
        self.width > 0 && self.height > 0
    }

    /// A size, or `None` when either side is zero.
    pub fn new(width: u32, height: u32) -> (r: Option<ScreenSize>)
        ensures
            r is Some <==> (width > 0 && height > 0),
            r matches Some(s) ==> s.width == width && s.height == height,
    {
        if width > 0 && height > 0 {
            Some(ScreenSize { width, height })
        } else {
            None
        }
    }

    /// The rectangle of this size whose corner is the origin.
    pub fn to_screen_rect(&self) -> (r: ScreenRect)
        ensures
            r == (ScreenRect { x: 0, y: 0, width: self.width, height: self.height }),
    {
        ScreenRect { x: 0, y: 0, width: self.width, height: self.height }
    }
}

impl ScreenRect {
    pub open spec fn wf(self) -> bool {
        self.width > 0 && self.height > 0
    }

    pub open spec fn right(self) -> int {
        self.x + self.width
    }

    pub open spec fn bottom(self) -> int {
        self.y + self.height
    }

    /// The pixel `(px, py)` lies inside the rectangle.
    pub open spec fn contains(self, px: int, py: int) -> bool {
        self.x <= px < self.right() && self.y <= py < self.bottom()
    }

    /// A rectangle, or `None` when either side is zero.
    pub fn new(x: i32, y: i32, width: u32, height: u32) -> (r: Option<ScreenRect>)
        ensures
            r is Some <==> (width > 0 && height > 0),
            r matches Some(s) ==> s == (ScreenRect { x, y, width, height }),
    {
        if width > 0 && height > 0 {
            Some(ScreenRect { x, y, width, height })
        } else {
            None
        }
    }

    /// The part of `self` that lies inside `bounds`, if any.
    pub fn fit_to_rect(&self, bounds: ScreenRect) -> (r: Option<ScreenRect>)
        ensures
            r == spec_intersect(*self, bounds),
    {
        let left: i32 = if self.x >= bounds.x { self.x } else { bounds.x };
        let top: i32 = if self.y >= bounds.y { self.y } else { bounds.y };
        let sr: i64 = self.x as i64 + self.width as i64;
        let br: i64 = bounds.x as i64 + bounds.width as i64;
        let right: i64 = if sr <= br { sr } else { br };
        let sb: i64 = self.y as i64 + self.height as i64;
        let bb: i64 = bounds.y as i64 + bounds.height as i64;
        let bottom: i64 = if sb <= bb { sb } else { bb };
        if (left as i64) < right && (top as i64) < bottom {
            Some(
                ScreenRect {
                    x: left,
                    y: top,
                    width: (right - left as i64) as u32,
                    height: (bottom - top as i64) as u32,
                },
            )
        } else {
            None
        }
    }
}

/// The pixels that two rectangles share, or `None` when they share none.
pub open spec fn spec_intersect(a: ScreenRect, b: ScreenRect) -> Option<ScreenRect> {
    let left = spec_max(a.x as int, b.x as int);
    let top = spec_max(a.y as int, b.y as int);
    let right = spec_min(a.right(), b.right());
    let bottom = spec_min(a.bottom(), b.bottom());
    if left < right && top < bottom {
        Some(
            ScreenRect {
                x: left as i32,
                y: top as i32,
                width: (right - left) as u32,
                height: (bottom - top) as u32,
            },
        )
    } else {
        None
    }
}

/// The intersection holds exactly the pixels that lie in both rectangles.
pub proof fn lemma_intersect_pixels(a: ScreenRect, b: ScreenRect, px: int, py: int)
    ensures
        match spec_intersect(a, b) {
            Some(r) => r.wf() && (r.contains(px, py) <==> (a.contains(px, py) && b.contains(
                px,
                py,
            ))),
            None => !(a.contains(px, py) && b.contains(px, py)),
        },
{
}

} // verus!
