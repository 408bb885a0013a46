use vstd::prelude::*;

verus! {

/// An axis-aligned rectangle on the screen: top-left corner, then width and
/// height in pixels.  The playfield's y axis points down.
#[derive(Clone, Copy, Debug, PartialEq, Eq, Structural)]
pub struct Rect {
    pub x: i32,
    pub y: i32,
    pub w: u32,
    pub h: u32,
}

/// Two rectangles overlap when each one's left edge lies strictly to the left
/// of the other's right edge, and likewise on the vertical axis; rectangles
/// that merely share an edge do not overlap.
pub open spec fn spec_intersects(a: Rect, b: Rect) -> bool {
    &&& a.x < b.x + b.w
    &&& b.x < a.x + a.w
    &&& a.y < b.y + b.h
    &&& b.y < a.y + a.h
}

/// Absolute value.
pub open spec fn spec_abs(v: int) -> int {
    if v < 0 {
        -v
    } else {
        v
    }
}

/// The sign of `v`: -1, 0 or 1.
pub open spec fn spec_sgn(v: int) -> int {
    if v < 0 {
        -1
    } else if v == 0 {
        0
    } else {
        1
    }
}

/// `v` clamped into the interval `[lo, hi]`.
pub open spec fn spec_clamp(v: int, lo: int, hi: int) -> int {
    if v < lo {
        lo
    } else if v > hi {
        hi
    } else {
        v
    }
}

impl Rect {
    pub fn new(x: i32, y: i32, w: u32, h: u32) -> (r: Rect)
        ensures
            r == (Rect { x, y, w, h }),
    {
        Rect { x, y, w, h }
    }

    pub fn has_intersection(&self, other: Rect) -> (r: bool)
        ensures
            r == spec_intersects(*self, other),
    {
        (self.x as i64) < (other.x as i64) + (other.w as i64)
            && (other.x as i64) < (self.x as i64) + (self.w as i64)
            && (self.y as i64) < (other.y as i64) + (other.h as i64)
            && (other.y as i64) < (self.y as i64) + (self.h as i64)
    }
}

/// `v` clamped into `[lo, hi]`, narrowed back to `i32`.
pub fn clamp_i64(v: i64, lo: i32, hi: i32) -> (r: i32)
    requires
        lo <= hi,
    ensures
        r == spec_clamp(v as int, lo as int, hi as int),
{
    if v < lo as i64 {
        lo
    } else if v > hi as i64 {
        hi
    } else {
        v as i32
    }
}

/// Where rejection sampling falls back to once its retry limit is spent:
/// the playfield corner diagonally opposite the obstacle, which leaves the
/// obstacle behind whenever the playfield has room on that side.
pub open spec fn spec_opposite_corner(
    obstacle: Rect,
    w: u32,
    h: u32,
    screen_width: int,
    screen_height: int,
) -> Rect {
    Rect {
        x: (if obstacle.x >= screen_width / 2 {
            0
        } else {
            screen_width - 1
        }) as i32,
        y: (if obstacle.y >= screen_height / 2 {
            0
        } else {
            screen_height - 1
        }) as i32,
        w,
        h,
    }
}

/// The executable fallback corner; see `spec_opposite_corner`.
pub fn opposite_corner(obstacle: Rect, w: u32, h: u32, screen_width: i32, screen_height: i32)
    -> (r: Rect)
    requires
        screen_width > 0,
        screen_height > 0,
    ensures
        r == spec_opposite_corner(obstacle, w, h, screen_width as int, screen_height as int),
        0 <= r.x < screen_width,
        0 <= r.y < screen_height,
{
    let x: i32 = if obstacle.x >= screen_width / 2 { 0 } else { screen_width - 1 };
    let y: i32 = if obstacle.y >= screen_height / 2 { 0 } else { screen_height - 1 };
    Rect { x, y, w, h }
}

/// A fresh vector holding the same rectangles.
pub fn copy_rects(v: &Vec<Rect>) -> (r: Vec<Rect>)
    ensures
        r@ == v@,
{
    let mut out: Vec<Rect> = Vec::new();
    let mut i: usize = 0;
    proof {
        assert(out@ =~= v@.subrange(0, 0));
    }
    while i < v.len()
        invariant
            i <= v@.len(),
            out@ == v@.subrange(0, i as int),
        decreases v@.len() - i,
    {
        out.push(v[i]);
        proof {
            assert(v@.subrange(0, i as int + 1) =~= v@.subrange(0, i as int).push(v@[i as int]));
        }
        i += 1;
    }
    proof {
        assert(v@.subrange(0, v@.len() as int) =~= v@);
    }
    out
}

} // verus!
