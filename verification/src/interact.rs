//! The pointer-driven interaction state machine.
//!
//! Pointer and keyboard events become continuous camera-rotation and
//! intensity-window adjustments.  The machine is in exactly one of three
//! states — idle, rotating (left button held) or windowing (right button
//! held) — and every transition is a pure function of the previous state,
//! the event and the viewport, returning the uniform write the shell must
//! perform.
//!
//! Angles and window factors are carried in fixed-point millionths: an
//! azimuth of half a radian is 500_000 units, a window scale factor of 1.2
//! is 1_200_000 units.  Divisions round toward zero, as the binary
//! floating-point arithmetic they stand in for has no directional bias.
//! Pointer positions are integer pixels.

use vstd::prelude::*;

verus! {

/// One unit (1.0) in fixed-point millionths.
pub const UNIT: i64 = 1_000_000;

/// The largest committed polar angle, in millionths of a radian: the
/// greatest such fixed-point value strictly below PI/2 - 1e-3.
pub const POLAR_LIMIT: i64 = 1_569_796;

/// Largest pointer coordinate magnitude the machine accepts, in pixels.
pub const POS_LIMIT: i64 = 1_000_000_000;

/// Which pointer interaction is in progress.
#[derive(Clone, Copy, Debug, PartialEq, Eq, Structural)]
pub enum Mode {
    Idle,
    Rotating,
    Windowing,
}

/// The viewport the drag deltas are measured against.
#[derive(Clone, Copy, Debug, PartialEq, Eq, Structural)]
pub struct Viewport {
    pub width: u32,
    pub height: u32,
}

impl Viewport {
    /// A drag needs a viewport with at least one pixel on each axis.
    pub open spec fn wf(self) -> bool {
        self.width >= 1 && self.height >= 1
    }
}

/// A pointer event, with positions in pixels.
#[derive(Clone, Copy, Debug, PartialEq, Eq, Structural)]
pub enum PointerEvent {
    LeftDown,
    LeftUp,
    RightDown,
    RightUp,
    Moved { x: i64, y: i64 },
}

impl PointerEvent {
    /// Positions carried by the event are within the accepted range.
    pub open spec fn wf(self) -> bool {
        match self {
            PointerEvent::Moved { x, y } => -POS_LIMIT <= x <= POS_LIMIT && -POS_LIMIT <= y
                <= POS_LIMIT,
            _ => true,
        }
    }
}

/// The uniform write a transition asks the shell to queue.
#[derive(Clone, Copy, Debug, PartialEq, Eq, Structural)]
pub enum Effect {
    /// Nothing to write.
    NoWrite,
    /// Write the camera orientation group: azimuth and polar angle in
    /// millionths of a radian, the polar angle already clamped.
    Camera { azimuth: i64, polar: i64 },
    /// Write the intensity-cuts group: scale and offset factors in
    /// millionths.
    Cuts { scale: i64, offset: i64 },
}

/// The interaction state: current mode, drag anchor, cursor, committed
/// camera angles and window factors, and the in-flight deltas of the
/// current drag.
#[derive(Clone, Copy, Debug, PartialEq, Eq, Structural)]
pub struct ViewState {
    pub mode: Mode,
    pub anchor_x: i64,
    pub anchor_y: i64,
    pub cursor_x: i64,
    pub cursor_y: i64,
    /// Committed azimuth, millionths of a radian; wraps freely.
    pub theta: i64,
    /// Committed polar angle, millionths of a radian; always within
    /// [-POLAR_LIMIT, POLAR_LIMIT].
    pub delta: i64,
    /// In-flight azimuth delta of the current rotation drag.
    pub dtheta: i64,
    /// In-flight polar delta of the current rotation drag.
    pub ddelta: i64,
    /// Committed window scale factor, millionths.
    pub scale: i64,
    /// Committed window offset factor, millionths.
    pub offset: i64,
    /// In-flight scale delta of the current windowing drag.
    pub dscale: i64,
    /// In-flight offset delta of the current windowing drag.
    pub doffset: i64,
}

/// Clamp an unbounded integer into the `i64` range.
pub open spec fn sat64(x: int) -> i64 {
    if x > i64::MAX {
        i64::MAX
    } else if x < i64::MIN {
        i64::MIN
    } else {
        x as i64
    }
}

/// Division rounding toward zero, the rounding of the underlying
/// floating-point quotient model.
pub open spec fn div_toward_zero(a: int, b: int) -> int
    recommends
        b >= 1,
{
    if a >= 0 {
        a / b
    } else {
        -((-a) / b)
    }
}

/// In-flight azimuth delta of a rotation drag: `2 * (dx / (w / 2))`,
/// in millionths of a radian.
pub open spec fn azimuth_delta(dx: int, w: int) -> int {
    div_toward_zero(4 * dx * 1_000_000, w)
}

/// In-flight polar delta of a rotation drag: `dy / (h / 2)`, in millionths
/// of a radian.
pub open spec fn polar_delta(dy: int, h: int) -> int {
    div_toward_zero(2 * dy * 1_000_000, h)
}

/// In-flight scale delta of a windowing drag: `dy / (h / 2)`, in
/// millionths.
pub open spec fn scale_delta(dy: int, h: int) -> int {
    div_toward_zero(2 * dy * 1_000_000, h)
}

/// In-flight offset delta of a windowing drag: `dx / (w / 2)`, in
/// millionths.
pub open spec fn offset_delta(dx: int, w: int) -> int {
    div_toward_zero(2 * dx * 1_000_000, w)
}

/// A polar angle clamped into `[-POLAR_LIMIT, POLAR_LIMIT]`, which lies
/// strictly inside the open interval `(-PI/2 + 1e-3, PI/2 - 1e-3)`.
pub open spec fn clamp_polar(x: int) -> i64 {
    if x < -POLAR_LIMIT {
        (-POLAR_LIMIT) as i64
    } else if x > POLAR_LIMIT {
        POLAR_LIMIT
    } else {
        x as i64
    }
}

/// A committed window factor: `base * (1 + delta)` in millionths, clamped
/// into the representable range.
pub open spec fn apply_factor(base: int, delta: int) -> i64 {
    sat64(div_toward_zero(base * (1_000_000 + delta), 1_000_000))
}

/// The complete transition function: from a state, an event, whether the
/// GUI overlay already consumed the event, and the viewport, to the next
/// state and the uniform write to queue.  A consumed event changes
/// nothing.
pub open spec fn step(s: ViewState, ev: PointerEvent, consumed: bool, vp: Viewport) -> (
    ViewState,
    Effect,
) {
    if consumed {
        (s, Effect::NoWrite)
    } else {
        match ev {
            PointerEvent::LeftDown => {
                if s.mode is Idle {
                    (
                        ViewState {
                            mode: Mode::Rotating,
                            anchor_x: s.cursor_x,
                            anchor_y: s.cursor_y,
                            dtheta: 0,
                            ddelta: 0,
                            ..s
                        },
                        Effect::NoWrite,
                    )
                } else {
                    (s, Effect::NoWrite)
                }
            },
            PointerEvent::LeftUp => {
                if s.mode is Rotating {
                    (
                        ViewState {
                            mode: Mode::Idle,
                            theta: sat64(s.theta + s.dtheta),
                            delta: clamp_polar(s.delta + s.ddelta),
                            dtheta: 0,
                            ddelta: 0,
                            ..s
                        },
                        Effect::NoWrite,
                    )
                } else {
                    (s, Effect::NoWrite)
                }
            },
            PointerEvent::RightDown => {
                if s.mode is Idle {
                    (
                        ViewState {
                            mode: Mode::Windowing,
                            anchor_x: s.cursor_x,
                            anchor_y: s.cursor_y,
                            dscale: 0,
                            doffset: 0,
                            ..s
                        },
                        Effect::NoWrite,
                    )
                } else {
                    (s, Effect::NoWrite)
                }
            },
            PointerEvent::RightUp => {
                if s.mode is Windowing {
                    (
                        ViewState {
                            mode: Mode::Idle,
                            scale: apply_factor(s.scale as int, s.dscale as int),
                            offset: apply_factor(s.offset as int, s.doffset as int),
                            dscale: 0,
                            doffset: 0,
                            ..s
                        },
                        Effect::NoWrite,
                    )
                } else {
                    (s, Effect::NoWrite)
                }
            },
            PointerEvent::Moved { x, y } => {
                let moved = ViewState { cursor_x: x, cursor_y: y, ..s };
                if s.mode is Rotating {
                    let dt = sat64(azimuth_delta(x - s.anchor_x, vp.width as int));
                    let dd = sat64(polar_delta(y - s.anchor_y, vp.height as int));
                    (
                        ViewState { dtheta: dt, ddelta: dd, ..moved },
                        Effect::Camera {
                            azimuth: sat64(s.theta + dt),
                            polar: clamp_polar(s.delta + dd),
                        },
                    )
                } else if s.mode is Windowing {
                    let ds = sat64(scale_delta(y - s.anchor_y, vp.height as int));
                    let doff = sat64(offset_delta(x - s.anchor_x, vp.width as int));
                    (
                        ViewState { dscale: ds, doffset: doff, ..moved },
                        Effect::Cuts {
                            scale: apply_factor(s.scale as int, ds as int),
                            offset: apply_factor(s.offset as int, doff as int),
                        },
                    )
                } else {
                    (moved, Effect::NoWrite)
                }
            },
        }
    }
}

impl ViewState {
    /// Pointer positions stored in the state are within the accepted
    /// range, and the committed polar angle is clamped.
    pub open spec fn wf(self) -> bool {
        &&& -POS_LIMIT <= self.anchor_x <= POS_LIMIT
        &&& -POS_LIMIT <= self.anchor_y <= POS_LIMIT
        &&& -POS_LIMIT <= self.cursor_x <= POS_LIMIT
        &&& -POS_LIMIT <= self.cursor_y <= POS_LIMIT
        &&& -POLAR_LIMIT <= self.delta <= POLAR_LIMIT
    }

    /// The neutral startup state: idle, no rotation, passthrough window.
    pub fn new() -> (s: ViewState)
        ensures
            s.wf(),
            s.mode is Idle,
            s.theta == 0 && s.delta == 0,
            s.scale == UNIT && s.offset == 0,
            s.dtheta == 0 && s.ddelta == 0 && s.dscale == 0 && s.doffset == 0,
            s.cursor_x == 0 && s.cursor_y == 0,
    {
        ViewState {
            mode: Mode::Idle,
            anchor_x: 0,
            anchor_y: 0,
            cursor_x: 0,
            cursor_y: 0,
            theta: 0,
            delta: 0,
            dtheta: 0,
            ddelta: 0,
            scale: UNIT,
            offset: 0,
            dscale: 0,
            doffset: 0,
        }
    }

    /// Feed one pointer event through the machine, mutating the state and
    /// returning the uniform write to queue.  An event the GUI overlay
    /// reports as consumed is never double-processed.
    pub fn handle(&mut self, ev: PointerEvent, consumed: bool, vp: Viewport) -> (eff: Effect)
        requires
            old(self).wf(),
            ev.wf(),
            vp.wf(),
        ensures
            final(self).wf(),
            (*final(self), eff) == step(*old(self), ev, consumed, vp),
    {
        if consumed {
            return Effect::NoWrite;
        }
        match ev {
            PointerEvent::LeftDown => {
                if let Mode::Idle = self.mode {
                    self.mode = Mode::Rotating;
                    self.anchor_x = self.cursor_x;
                    self.anchor_y = self.cursor_y;
                    self.dtheta = 0;
                    self.ddelta = 0;
                }
                Effect::NoWrite
            },
            PointerEvent::LeftUp => {
                if let Mode::Rotating = self.mode {
                    self.mode = Mode::Idle;
                    self.theta = sat_add(self.theta, self.dtheta);
                    self.delta = clamp_polar_exec((self.delta as i128) + (self.ddelta as i128));
                    self.dtheta = 0;
                    self.ddelta = 0;
                }
                Effect::NoWrite
            },
            PointerEvent::RightDown => {
                if let Mode::Idle = self.mode {
                    self.mode = Mode::Windowing;
                    self.anchor_x = self.cursor_x;
                    self.anchor_y = self.cursor_y;
                    self.dscale = 0;
                    self.doffset = 0;
                }
                Effect::NoWrite
            },
            PointerEvent::RightUp => {
                if let Mode::Windowing = self.mode {
                    self.mode = Mode::Idle;
                    self.scale = apply_factor_exec(self.scale, self.dscale);
                    self.offset = apply_factor_exec(self.offset, self.doffset);
                    self.dscale = 0;
                    self.doffset = 0;
                }
                Effect::NoWrite
            },
            PointerEvent::Moved { x, y } => {
                match self.mode {
                    Mode::Rotating => {
                        let dt = scaled_ratio(4, x, self.anchor_x, vp.width);
                        let dd = scaled_ratio(2, y, self.anchor_y, vp.height);
                        let az = sat_add(self.theta, dt);
                        let pol = clamp_polar_exec((self.delta as i128) + (dd as i128));
                        self.cursor_x = x;
                        self.cursor_y = y;
                        self.dtheta = dt;
                        self.ddelta = dd;
                        Effect::Camera { azimuth: az, polar: pol }
                    },
                    Mode::Windowing => {
                        let ds = scaled_ratio(2, y, self.anchor_y, vp.height);
                        let doff = scaled_ratio(2, x, self.anchor_x, vp.width);
                        let sc = apply_factor_exec(self.scale, ds);
                        let off = apply_factor_exec(self.offset, doff);
                        self.cursor_x = x;
                        self.cursor_y = y;
                        self.dscale = ds;
                        self.doffset = doff;
                        Effect::Cuts { scale: sc, offset: off }
                    },
                    Mode::Idle => {
                        self.cursor_x = x;
                        self.cursor_y = y;
                        Effect::NoWrite
                    },
                }
            },
        }
    }
}

/// `i64` addition clamped at the ends of the range.
fn sat_add(a: i64, b: i64) -> (r: i64)
    ensures
        r == sat64(a + b),
{
    sat_from_wide((a as i128) + (b as i128))
}

/// Clamp a wide intermediate into the `i64` range.
fn sat_from_wide(x: i128) -> (r: i64)
    ensures
        r == sat64(x as int),
{
    if x > i64::MAX as i128 {
        i64::MAX
    } else if x < i64::MIN as i128 {
        i64::MIN
    } else {
        x as i64
    }
}

/// Clamp a wide polar angle into `[-POLAR_LIMIT, POLAR_LIMIT]`.
fn clamp_polar_exec(x: i128) -> (r: i64)
    ensures
        r == clamp_polar(x as int),
{
    if x < (-POLAR_LIMIT) as i128 {
        -POLAR_LIMIT
    } else if x > POLAR_LIMIT as i128 {
        POLAR_LIMIT
    } else {
        x as i64
    }
}

/// Division of a wide value by a positive divisor, rounding toward zero.
fn div_toward_zero_exec(a: i128, b: i128) -> (r: i128)
    requires
        b >= 1,
        -0x7FFF_FFFF_FFFF_FFFF_FFFF_FFFF_FFFF_FFFF <= a
            <= 0x7FFF_FFFF_FFFF_FFFF_FFFF_FFFF_FFFF_FFFF,
    ensures
        r as int == div_toward_zero(a as int, b as int),
        (a >= 0 ==> 0 <= r <= a) && (a < 0 ==> a <= r <= 0),
{
    if a >= 0 {
        let q = a / b;
        proof {
            vstd::arithmetic::div_mod::lemma_fundamental_div_mod(a as int, b as int);
            vstd::arithmetic::div_mod::lemma_div_is_ordered_by_denominator(a as int, 1, b as int);
            vstd::arithmetic::div_mod::lemma_div_pos_is_pos(a as int, b as int);
        }
        q
    } else {
        let q = (-a) / b;
        proof {
            vstd::arithmetic::div_mod::lemma_fundamental_div_mod(-a as int, b as int);
            vstd::arithmetic::div_mod::lemma_div_is_ordered_by_denominator(-a as int, 1, b as int);
            vstd::arithmetic::div_mod::lemma_div_pos_is_pos(-a as int, b as int);
        }
        -q
    }
}

/// The in-flight delta of a drag along one axis: `factor * (pos - anchor)`
/// millionths divided by the viewport extent, clamped into `i64`.
fn scaled_ratio(factor: i64, pos: i64, anchor: i64, extent: u32) -> (r: i64)
    requires
        1 <= factor <= 4,
        -POS_LIMIT <= pos <= POS_LIMIT,
        -POS_LIMIT <= anchor <= POS_LIMIT,
        extent >= 1,
    ensures
        r == sat64(div_toward_zero(factor * (pos - anchor) * 1_000_000, extent as int)),
{
    proof {
        let diff = (pos as int) - (anchor as int);
        assert(-8_000_000_000 <= (factor as int) * diff <= 8_000_000_000) by (nonlinear_arith)
            requires
                1 <= factor <= 4,
                -2_000_000_000 <= diff <= 2_000_000_000,
        ;
    }
    let part: i128 = (factor as i128) * ((pos as i128) - (anchor as i128));
    let num: i128 = part * 1_000_000;
    let q = div_toward_zero_exec(num, extent as i128);
    sat_from_wide(q)
}

/// Commit a window factor: `base * (1 + delta)` in millionths, clamped.
fn apply_factor_exec(base: i64, delta: i64) -> (r: i64)
    ensures
        r == apply_factor(base as int, delta as int),
{
    let m: i128 = 1_000_000i128 + (delta as i128);
    proof {
        let b = base as int;
        let mm = 1_000_000 + delta as int;
        assert(b * mm < 0x7FFF_FFFF_FFFF_FFFF_FFFF_FFFF_FFFF_FFFF && b * mm
            > -0x7FFF_FFFF_FFFF_FFFF_FFFF_FFFF_FFFF_FFFF) by (nonlinear_arith)
            requires
                -0x8000_0000_0000_0000 <= b <= 0x7FFF_FFFF_FFFF_FFFF,
                -0x8000_0000_0000_0000 <= mm - 1_000_000 <= 0x7FFF_FFFF_FFFF_FFFF,
        ;
    }
    let prod: i128 = (base as i128) * m;
    let q = div_toward_zero_exec(prod, 1_000_000);
    sat_from_wide(q)
}

/// Law: however large the raw drag delta, the polar angle a rotation
/// commit stores is clamped into `[-POLAR_LIMIT, POLAR_LIMIT]`, strictly
/// inside the open interval `(-PI/2 + 1e-3, PI/2 - 1e-3)` of radians.
pub proof fn lemma_polar_commit_clamped(s: ViewState, vp: Viewport)
    requires
        s.mode is Rotating,
    ensures
        -POLAR_LIMIT <= step(s, PointerEvent::LeftUp, false, vp).0.delta <= POLAR_LIMIT,
{
}

/// Law: the polar angle previewed during a rotation drag obeys the same
/// clamp as the committed one.
pub proof fn lemma_polar_preview_clamped(s: ViewState, x: i64, y: i64, vp: Viewport)
    requires
        s.mode is Rotating,
    ensures
        ({
            let eff = step(s, PointerEvent::Moved { x, y }, false, vp).1;
            match eff {
                Effect::Camera { azimuth, polar } => -POLAR_LIMIT <= polar <= POLAR_LIMIT,
                _ => false,
            }
        }),
{
}

} // verus!
