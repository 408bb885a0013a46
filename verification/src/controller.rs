use vstd::prelude::*;

verus! {

/// Stick deflections are reported in tenths: a full push is 10, centred is 0.
pub const STICK_RANGE: i32 = 10;

/// Heading of the vector `(x, y)` in whole degrees, in `[-180, 180]`, with
/// 0 pointing along the positive x axis and 90 along the positive y axis
/// (screen-down).  The angle within an octant is approximated linearly,
/// which is exact on the axes and the diagonals.  The zero vector maps to 0.
pub open spec fn spec_heading(x: int, y: int) -> int {
    let ax = if x < 0 { -x } else { x };
    let ay = if y < 0 { -y } else { y };
    if ax == 0 && ay == 0 {
        0
    } else {
        let base = if ax >= ay {
            45 * ay / ax
        } else {
            90 - 45 * ax / ay
        };
        if x >= 0 && y >= 0 {
            base
        } else if x < 0 && y >= 0 {
            180 - base
        } else if x < 0 {
            -180 + base
        } else {
            -base
        }
    }
}

/// Heading in whole degrees of the vector `(x, y)`; see `spec_heading`.
pub fn heading_degrees(x: i32, y: i32) -> (r: i32)
    ensures
        r == spec_heading(x as int, y as int),
        -180 <= r <= 180,
{
    let ax: i64 = if x < 0 { -(x as i64) } else { x as i64 };
    let ay: i64 = if y < 0 { -(y as i64) } else { y as i64 };
    if ax == 0 && ay == 0 {
        return 0;
    }
    proof {
        if ax >= ay {
            quarter_turn_fraction_bounded(ax as int, ay as int);
        } else {
            quarter_turn_fraction_bounded(ay as int, ax as int);
        }
    }
    let base: i64 = if ax >= ay { 45 * ay / ax } else { 90 - 45 * ax / ay };
    let signed: i64 = if x >= 0 && y >= 0 {
        base
    } else if x < 0 && y >= 0 {
        180 - base
    } else if x < 0 {
        -180 + base
    } else {
        -base
    };
    signed as i32
}

/// A snapshot of one analog stick: the raw deflection in tenths, the point
/// on the screen the deflection maps to, and the heading of the deflection.
#[derive(Clone, Copy, Debug, PartialEq, Eq, Structural)]
pub struct StickPosition {
    pub degrees: i32,
    pub x: i32,
    pub y: i32,
    pub screen_x: i32,
    pub screen_y: i32,
    pub screen_width: i32,
    pub screen_height: i32,
}

/// What `StickPosition::update` computes: the deflection, which runs from
/// `-STICK_RANGE` to `STICK_RANGE`, is mapped affinely onto `[0, screen]`
/// on each axis, and the heading is recomputed.
pub open spec fn spec_stick_update(s: StickPosition) -> StickPosition {
    StickPosition {
        screen_x: ((s.x + STICK_RANGE) * s.screen_width / (2 * STICK_RANGE)) as i32,
        screen_y: ((s.y + STICK_RANGE) * s.screen_height / (2 * STICK_RANGE)) as i32,
        degrees: spec_heading(s.x as int, s.y as int) as i32,
        ..s
    }
}

impl StickPosition {
    /// A stick's deflection is valid when both axes lie within the reported
    /// range and the screen it maps onto has non-negative dimensions.
    pub open spec fn wf(self) -> bool {
        &&& -STICK_RANGE <= self.x <= STICK_RANGE
        &&& -STICK_RANGE <= self.y <= STICK_RANGE
        &&& 0 <= self.screen_width
        &&& 0 <= self.screen_height
        &&& -180 <= self.degrees <= 180
    }

    pub fn new(x: i32, y: i32, screen_width: i32, screen_height: i32) -> (s: StickPosition)
        requires
            -STICK_RANGE <= x <= STICK_RANGE,
            -STICK_RANGE <= y <= STICK_RANGE,
            0 <= screen_width,
            0 <= screen_height,
        ensures
            s == (StickPosition {
                degrees: 0,
                x,
                y,
                screen_x: 0,
                screen_y: 0,
                screen_width,
                screen_height,
            }),
            s.wf(),
    {
        StickPosition { degrees: 0, x, y, screen_x: 0, screen_y: 0, screen_width, screen_height }
    }

    pub fn get_degrees(self) -> (r: i32)
        ensures
            r == self.degrees,
    {
        self.degrees
    }

    pub fn get_x(self) -> (r: i32)
        ensures
            r == self.x,
    {
        self.x
    }

    pub fn get_y(self) -> (r: i32)
        ensures
            r == self.y,
    {
        self.y
    }

    pub fn get_screen_x(self) -> (r: i32)
        ensures
            r == self.screen_x,
    {
        self.screen_x
    }

    pub fn get_screen_y(self) -> (r: i32)
        ensures
            r == self.screen_y,
    {
        self.screen_y
    }

    /// Refresh the derived fields (screen point and heading) from the raw
    /// deflection.
    pub fn update(&mut self)
        requires
            old(self).wf(),
        ensures
            *final(self) == spec_stick_update(*old(self)),
            final(self).wf(),
    {
        let span: i64 = 2 * STICK_RANGE as i64;
        proof {
            vstd::arithmetic::mul::lemma_mul_upper_bound(
                self.x + STICK_RANGE, 2 * STICK_RANGE as int,
                self.screen_width as int, i32::MAX as int);
            vstd::arithmetic::mul::lemma_mul_nonnegative(
                self.x + STICK_RANGE, self.screen_width as int);
            vstd::arithmetic::mul::lemma_mul_upper_bound(
                self.y + STICK_RANGE, 2 * STICK_RANGE as int,
                self.screen_height as int, i32::MAX as int);
            vstd::arithmetic::mul::lemma_mul_nonnegative(
                self.y + STICK_RANGE, self.screen_height as int);
        }
        let sx: i64 = (self.x as i64 + STICK_RANGE as i64) * self.screen_width as i64 / span;
        let sy: i64 = (self.y as i64 + STICK_RANGE as i64) * self.screen_height as i64 / span;
        assert(0 <= (self.x + STICK_RANGE) * self.screen_width / (2 * STICK_RANGE)
            <= self.screen_width) by {
            scaled_deflection_in_screen(self.x as int, self.screen_width as int);
        }
        assert(0 <= (self.y + STICK_RANGE) * self.screen_height / (2 * STICK_RANGE)
            <= self.screen_height) by {
            scaled_deflection_in_screen(self.y as int, self.screen_height as int);
        }
        self.screen_x = sx as i32;
        self.screen_y = sy as i32;
        self.degrees = heading_degrees(self.x, self.y);
    }
}

/// The within-octant interpolation `45 * minor / major` stays in `[0, 45]`.
proof fn quarter_turn_fraction_bounded(major: int, minor: int)
    requires
        0 <= minor <= major,
        0 < major,
    ensures
        0 <= 45 * minor / major <= 45,
{
    vstd::arithmetic::mul::lemma_mul_nonnegative(45, minor);
    vstd::arithmetic::div_mod::lemma_div_is_ordered(0, 45 * minor, major);
    vstd::arithmetic::div_mod::lemma_div_of0(major);
    vstd::arithmetic::mul::lemma_mul_inequality(minor, major, 45);
    vstd::arithmetic::mul::lemma_mul_is_commutative(45, minor);
    vstd::arithmetic::mul::lemma_mul_is_commutative(45, major);
    vstd::arithmetic::div_mod::lemma_div_is_ordered(45 * minor, 45 * major, major);
    vstd::arithmetic::div_mod::lemma_div_multiples_vanish(45, major);
}

/// A deflection scaled onto the screen stays on the screen.
proof fn scaled_deflection_in_screen(v: int, screen: int)
    requires
        -STICK_RANGE <= v <= STICK_RANGE,
        0 <= screen,
    ensures
        0 <= (v + STICK_RANGE) * screen / (2 * STICK_RANGE) <= screen,
{
    let s = STICK_RANGE as int;
    vstd::arithmetic::mul::lemma_mul_nonnegative(v + s, screen);
    vstd::arithmetic::div_mod::lemma_div_of0(2 * s);
    vstd::arithmetic::div_mod::lemma_div_is_ordered(0, (v + s) * screen, 2 * s);
    vstd::arithmetic::mul::lemma_mul_inequality(v + s, 2 * s, screen);
    vstd::arithmetic::div_mod::lemma_div_is_ordered((v + s) * screen, (2 * s) * screen, 2 * s);
    vstd::arithmetic::mul::lemma_mul_is_commutative(2 * s, screen);
    vstd::arithmetic::div_mod::lemma_div_multiples_vanish(screen, 2 * s);
}

/// The two analog sticks of the game pad: the left stick steers the player,
/// the right stick aims lasers.
#[derive(Clone, Copy, Debug, PartialEq, Eq, Structural)]
pub struct Controller {
    pub left_stick: StickPosition,
    pub right_stick: StickPosition,
}

/// Which stick axis a raw input event updates.
pub const AXIS_LEFT_X: u8 = 0;
pub const AXIS_LEFT_Y: u8 = 1;
pub const AXIS_RIGHT_X: u8 = 2;
pub const AXIS_RIGHT_Y: u8 = 3;

/// A `Controller::update` writes `position` into the axis the event names
/// and leaves the other axes as they were.
pub open spec fn spec_axis_write(c: Controller, axis: u8, position: i32) -> Controller {
    if axis == AXIS_LEFT_X {
        Controller { left_stick: StickPosition { x: position, ..c.left_stick }, ..c }
    } else if axis == AXIS_LEFT_Y {
        Controller { left_stick: StickPosition { y: position, ..c.left_stick }, ..c }
    } else if axis == AXIS_RIGHT_X {
        Controller { right_stick: StickPosition { x: position, ..c.right_stick }, ..c }
    } else if axis == AXIS_RIGHT_Y {
        Controller { right_stick: StickPosition { y: position, ..c.right_stick }, ..c }
    } else {
        c
    }
}

impl Controller {
    /// What `Controller::new` returns: both sticks centred.
    pub open spec fn new_spec(screen_width: i32, screen_height: i32) -> Controller {
        Controller {
            left_stick: StickPosition::new_centred_spec(screen_width, screen_height),
            right_stick: StickPosition::new_centred_spec(screen_width, screen_height),
        }
    }

    pub open spec fn wf(self) -> bool {
        &&& self.left_stick.wf()
        &&& self.right_stick.wf()
    }

    pub fn new(screen_width: i32, screen_height: i32) -> (c: Controller)
        requires
            0 <= screen_width,
            0 <= screen_height,
        ensures
            c == Controller::new_spec(screen_width, screen_height),
            c.wf(),
    {
        Controller {
            left_stick: StickPosition::new(0, 0, screen_width, screen_height),
            right_stick: StickPosition::new(0, 0, screen_width, screen_height),
        }
    }

    pub fn get_left_stick(self) -> (r: StickPosition)
        ensures
            r == self.left_stick,
    {
        self.left_stick
    }

    pub fn get_right_stick(self) -> (r: StickPosition)
        ensures
            r == self.right_stick,
    {
        self.right_stick
    }

    /// Apply one axis event, already quantised to tenths, then refresh both
    /// sticks' derived fields.
    pub fn update(&mut self, axis: u8, position: i32)
        requires
            old(self).wf(),
            -STICK_RANGE <= position <= STICK_RANGE,
        ensures
            ({
                let written = spec_axis_write(*old(self), axis, position);
                *final(self) == (Controller {
                    left_stick: spec_stick_update(written.left_stick),
                    right_stick: spec_stick_update(written.right_stick),
                })
            }),
            final(self).wf(),
    {
        if axis == AXIS_LEFT_X {
            self.left_stick.x = position;
        } else if axis == AXIS_LEFT_Y {
            self.left_stick.y = position;
        } else if axis == AXIS_RIGHT_X {
            self.right_stick.x = position;
        } else if axis == AXIS_RIGHT_Y {
            self.right_stick.y = position;
        }
        self.left_stick.update();
        self.right_stick.update();
    }
}

impl StickPosition {
    /// What `StickPosition::new(0, 0, w, h)` returns.
    pub open spec fn new_centred_spec(screen_width: i32, screen_height: i32) -> StickPosition {
        StickPosition {
            degrees: 0,
            x: 0,
            y: 0,
            screen_x: 0,
            screen_y: 0,
            screen_width,
            screen_height,
        }
    }
}

} // verus!
