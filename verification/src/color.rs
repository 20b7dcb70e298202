//! The color mapper: a pure, total function from a temperature to an RGB
//! triple, driven by a configurable piecewise-linear scale.

use vstd::prelude::*;
use vstd::arithmetic::div_mod::{
    lemma_div_is_ordered,
    lemma_div_multiples_vanish,
    lemma_div_pos_is_pos,
};
use vstd::arithmetic::mul::{lemma_mul_inequality, lemma_mul_nonnegative};

verus! {

/// An RGB triple of 8-bit channel values. Produced fresh for every poll.
#[derive(Clone, Copy, Debug, PartialEq, Eq, Structural)]
pub struct ColorRgb {
    pub r: u8,
    pub g: u8,
    pub b: u8,
}

/// Immutable mapping configuration. Temperatures are in centidegrees
/// (hundredths of a degree Celsius); channel bounds are 8-bit values.
#[derive(Clone, Copy, Debug)]
pub struct ColorMapConfig {
    /// Lower bound of the active mapping range, in centidegrees.
    pub lower_temp: i64,
    /// Upper bound of the active mapping range, in centidegrees.
    pub upper_temp: i64,
    /// Channel value used below the lower bound, and the red floor.
    pub base_value: u8,
    /// Saturation bound for the red channel.
    pub max_value: u8,
}

impl ColorMapConfig {
    /// A usable configuration: a non-empty active range and ordered channel
    /// bounds.
    pub open spec fn wf(self) -> bool {
        &&& self.lower_temp < self.upper_temp
        &&& self.base_value <= self.max_value
    }
}

/// The red channel as a mathematical function of the temperature: flat at
/// `base_value` up to `lower_temp`, then rising linearly (rounded toward
/// zero), saturating at `max_value`.
pub open spec fn spec_red(cfg: ColorMapConfig, t: int) -> int {
    if t <= cfg.lower_temp {
        cfg.base_value as int
    } else {
        let q = ((t - cfg.lower_temp) * (cfg.max_value - cfg.base_value))
            / (cfg.upper_temp - cfg.lower_temp);
        if q >= cfg.max_value - cfg.base_value {
            cfg.max_value as int
        } else {
            cfg.base_value + q
        }
    }
}

/// The green channel: `base_value` up to `lower_temp`, then the inverse of
/// the scale times `base_value` (rounded toward zero), clamped to the 8-bit
/// range. Green shrinks as the temperature rises above the lower bound.
pub open spec fn spec_green(cfg: ColorMapConfig, t: int) -> int {
    if t <= cfg.lower_temp {
        cfg.base_value as int
    } else {
        let g = (cfg.base_value * (cfg.upper_temp - cfg.lower_temp)) / (t - cfg.lower_temp);
        if g > 255 {
            255
        } else {
            g
        }
    }
}

/// The full mapping: red and green as above, blue never used.
pub open spec fn spec_map(cfg: ColorMapConfig, t: int) -> ColorRgb {
    ColorRgb {
        r: spec_red(cfg, t) as u8,
        g: spec_green(cfg, t) as u8,
        b: 0,
    }
}

/// Maps a temperature in centidegrees to a color. Pure, total and
/// deterministic: every temperature, however far outside the active range,
/// yields a well-defined color.
pub fn map(cfg: &ColorMapConfig, t: i64) -> (c: ColorRgb)
    requires
        cfg.wf(),
    ensures
        c == spec_map(*cfg, t as int),
        c.r == spec_red(*cfg, t as int),
        c.g == spec_green(*cfg, t as int),
        c.b == 0,
{
    if t <= cfg.lower_temp {
        ColorRgb { r: cfg.base_value, g: cfg.base_value, b: 0 }
    } else {
        let dt: u128 = (t as i128 - cfg.lower_temp as i128) as u128;
        let span: u128 = (cfg.upper_temp as i128 - cfg.lower_temp as i128) as u128;
        let rise: u128 = (cfg.max_value - cfg.base_value) as u128;

        proof {
            assert(dt * rise <= 0xffff_ffff_ffff_ffffu128 * 255) by (nonlinear_arith)
                requires
                    0 <= dt <= 0xffff_ffff_ffff_ffffu128,
                    0 <= rise <= 255,
            ;
            assert(cfg.base_value * span <= 255 * 0xffff_ffff_ffff_ffffu128) by (nonlinear_arith)
                requires
                    0 <= span <= 0xffff_ffff_ffff_ffffu128,
                    0 <= cfg.base_value <= 255,
            ;
        }
        let q: u128 = dt * rise / span;
        let r: u8 = if q >= rise {
            cfg.max_value
        } else {
            cfg.base_value + (q as u8)
        };

        let gq: u128 = (cfg.base_value as u128) * span / dt;
        let g: u8 = if gq > 255 { 255 } else { gq as u8 };

        proof {
            lemma_map_exec_matches(*cfg, t as int, dt as int, span as int, rise as int);
        }
        ColorRgb { r, g, b: 0 }
    }
}

/// Flat region below the threshold: every temperature at or below
/// `lower_temp` maps to the same color as `lower_temp` itself.
pub proof fn lemma_map_flat_below_lower(cfg: ColorMapConfig, t: int)
    requires
        cfg.wf(),
        t <= cfg.lower_temp,
    ensures
        spec_map(cfg, t) == spec_map(cfg, cfg.lower_temp as int),
{
}

/// Saturation: at or above `upper_temp` the red channel is exactly
/// `max_value`.
pub proof fn lemma_red_saturates(cfg: ColorMapConfig, t: int)
    requires
        cfg.wf(),
        t >= cfg.upper_temp,
    ensures
        spec_red(cfg, t) == cfg.max_value,
{
    let span = cfg.upper_temp - cfg.lower_temp;
    let rise = cfg.max_value - cfg.base_value;
    let dt = t - cfg.lower_temp;
    lemma_mul_inequality(span, dt, rise);
    lemma_div_is_ordered(span * rise, dt * rise, span);
    lemma_div_multiples_vanish(rise, span);
    assert(span * rise == rise * span) by (nonlinear_arith);
    assert(dt * rise / span >= rise);
}

/// Monotonicity: the red channel never decreases as the temperature rises.
pub proof fn lemma_red_monotone(cfg: ColorMapConfig, t1: int, t2: int)
    requires
        cfg.wf(),
        t1 <= t2,
    ensures
        spec_red(cfg, t1) <= spec_red(cfg, t2),
{
    let span = cfg.upper_temp - cfg.lower_temp;
    let rise = cfg.max_value - cfg.base_value;
    if t1 <= cfg.lower_temp && t2 > cfg.lower_temp {
        lemma_mul_nonnegative(t2 - cfg.lower_temp, rise);
        lemma_div_pos_is_pos((t2 - cfg.lower_temp) * rise, span);
    } else if t1 > cfg.lower_temp {
        lemma_mul_inequality(t1 - cfg.lower_temp, t2 - cfg.lower_temp, rise);
        lemma_div_is_ordered((t1 - cfg.lower_temp) * rise, (t2 - cfg.lower_temp) * rise, span);
    }
}

/// The executable arithmetic (unsigned, widened to avoid overflow) computes
/// the same quotients as the mathematical definitions.
proof fn lemma_map_exec_matches(cfg: ColorMapConfig, t: int, dt: int, span: int, rise: int)
    requires
        cfg.wf(),
        t > cfg.lower_temp,
        dt == t - cfg.lower_temp,
        span == cfg.upper_temp - cfg.lower_temp,
        rise == cfg.max_value - cfg.base_value,
    ensures
        spec_red(cfg, t) == if dt * rise / span >= rise {
            cfg.max_value as int
        } else {
            cfg.base_value + dt * rise / span
        },
        spec_green(cfg, t) == if cfg.base_value * span / dt > 255 {
            255int
        } else {
            cfg.base_value * span / dt
        },
{
}

} // verus!
