use vstd::prelude::*;

use crate::color::{black, is_unit, mul_spec, white, Color, ONE};

verus! {

/// Red channel of the sky color straight up: 0.5.
pub const SKY_R: i64 = 8388608;

/// Green channel of the sky color straight up: 0.7, rounded down.
pub const SKY_G: i64 = 11744051;

/// Blue channel of the sky color straight up: 1.0.
pub const SKY_B: i64 = 16777216;

/// Linear interpolation from `a` at `t == 0` to `b` at `t == ONE`, rounded down.
pub open spec fn lerp(t: int, a: int, b: int) -> int {
    ((ONE - t) * a + t * b) / (ONE as int)
}

/// Blend parameter of the sky gradient for the height `unit_y` of a unit
/// direction: `(unit_y + 1) / 2`, rounded down.
pub open spec fn sky_blend(unit_y: int) -> int {
    (unit_y + ONE) / 2
}

/// Background radiance in a direction whose unit vector has height `unit_y`:
/// white looking straight down, sky blue looking straight up.
pub open spec fn sky_spec(unit_y: int) -> Color {
    let t = sky_blend(unit_y);
    Color {
        r: lerp(t, ONE as int, SKY_R as int) as i64,
        g: lerp(t, ONE as int, SKY_G as int) as i64,
        b: lerp(t, ONE as int, SKY_B as int) as i64,
    }
}

fn lerp_channel(t: i64, a: i64, b: i64) -> (c: i64)
    requires
        0 <= t <= ONE,
        0 <= a <= ONE,
        0 <= b <= ONE,
    ensures
        c == lerp(t as int, a as int, b as int),
        0 <= c <= ONE,
{
    proof {
        assert(0 <= (ONE - t) * a <= (ONE - t) * ONE) by (nonlinear_arith)
            requires 0 <= t <= ONE, 0 <= a <= ONE;
        assert(0 <= t * b <= t * ONE) by (nonlinear_arith)
            requires 0 <= t <= ONE, 0 <= b <= ONE;
        assert((ONE - t) * ONE + t * ONE == ONE * ONE) by (nonlinear_arith);
        assert(((ONE - t) * a + t * b) / (ONE as int) <= ONE) by (nonlinear_arith)
            requires 0 <= (ONE - t) * a + t * b <= ONE * ONE;
    }
    ((ONE - t) * a + t * b) / ONE
}

/// Background radiance for a ray that leaves the scene, from the height
/// `unit_y` (in fixed point) of its unit direction.
pub fn sky_color(unit_y: i64) -> (c: Color)
    requires
        -ONE <= unit_y <= ONE,
    ensures
        c == sky_spec(unit_y as int),
        is_unit(c),
{
    let t = (unit_y + ONE) / 2;
    Color {
        r: lerp_channel(t, ONE, SKY_R),
        g: lerp_channel(t, ONE, SKY_G),
        b: lerp_channel(t, ONE, SKY_B),
    }
}

/// What became of a ray that was traced into the scene.
#[derive(Clone, Copy, Debug, PartialEq, Eq, Structural)]
pub enum Bounce {
    /// It hit nothing; `sky` is the background radiance in its direction.
    Escaped { sky: Color },
    /// It hit a surface that scattered it, attenuating by `attenuation`.
    Scattered { attenuation: Color },
    /// It hit a surface that absorbed it.
    Absorbed,
}

/// Radiances carried by a bounce are fractions of full intensity.
pub open spec fn bounce_ok(b: Bounce) -> bool {
    match b {
        Bounce::Escaped { sky } => is_unit(sky),
        Bounce::Scattered { attenuation } => is_unit(attenuation),
        Bounce::Absorbed => true,
    }
}

/// A path being traced: the bounces still allowed and the product of the
/// attenuations met so far.
#[derive(Clone, Copy, Debug, PartialEq, Eq, Structural)]
pub struct PathState {
    pub depth: i32,
    pub throughput: Color,
}

/// The next thing to do on a path: trace one more ray, or report its radiance.
#[derive(Clone, Copy, Debug, PartialEq, Eq, Structural)]
pub enum Step {
    Trace(PathState),
    Done(Color),
}

/// A path state that may trace one more ray.
pub open spec fn state_ok(s: PathState) -> bool {
    s.depth > 0 && is_unit(s.throughput)
}

/// Step before tracing a ray with `depth` bounces left and `throughput`
/// gathered: with no bounce left the path is black.
pub open spec fn begin_spec(depth: int, throughput: Color) -> Step {
    if depth <= 0 {
        Step::Done(black())
    } else {
        Step::Trace(PathState { depth: depth as i32, throughput })
    }
}

/// Step after a traced ray met `b`.
pub open spec fn advance_spec(s: PathState, b: Bounce) -> Step {
    match b {
        Bounce::Escaped { sky } => Step::Done(mul_spec(s.throughput, sky)),
        Bounce::Absorbed => Step::Done(black()),
        Bounce::Scattered { attenuation } => begin_spec(
            s.depth - 1,
            mul_spec(s.throughput, attenuation),
        ),
    }
}

/// Every path that may go on is in a state that may trace one more ray.
pub open spec fn step_ok(st: Step) -> bool {
    match st {
        Step::Trace(s) => state_ok(s),
        Step::Done(c) => is_unit(c),
    }
}

impl PathState {
    /// Starts the path of a camera ray with a budget of `max_depth` bounces.
    /// A budget of zero or less gives black whatever the scene holds.
    pub fn start(max_depth: i32) -> (st: Step)
        ensures
            st == begin_spec(max_depth as int, white()),
            max_depth <= 0 ==> st == Step::Done(black()),
            step_ok(st),
    {
        if max_depth <= 0 {
            Step::Done(Color::zero())
        } else {
            Step::Trace(PathState { depth: max_depth, throughput: Color::new(ONE, ONE, ONE) })
        }
    }

    /// The step after the ray traced in this state met `bounce`: an escaped
    /// ray ends the path with the sky radiance attenuated by all surfaces met
    /// before, an absorbed one ends it black, and a scattered one goes on
    /// with one bounce less and the surface's attenuation applied.
    pub fn advance(&self, bounce: Bounce) -> (st: Step)
        requires
            state_ok(*self),
            bounce_ok(bounce),
        ensures
            st == advance_spec(*self, bounce),
            step_ok(st),
    {
        match bounce {
            Bounce::Escaped { sky } => Step::Done(self.throughput.mul(&sky)),
            Bounce::Absorbed => Step::Done(Color::zero()),
            Bounce::Scattered { attenuation } => {
                let throughput = self.throughput.mul(&attenuation);
                if self.depth - 1 <= 0 {
                    Step::Done(Color::zero())
                } else {
                    Step::Trace(PathState { depth: self.depth - 1, throughput })
                }
            },
        }
    }
}

} // verus!
