//! The throttle curve: full speed below the start threshold, minimum speed
//! at and above the maximum threshold, a linear ramp between them, and
//! hysteresis on the temperature that last changed the frequency.
use vstd::prelude::*;
use vstd::arithmetic::div_mod::{lemma_div_is_ordered, lemma_div_by_multiple};
use vstd::arithmetic::mul::lemma_mul_inequality;
use crate::config::{Config, ProfileThresholds};

verus! {

/// Throttle controller with hysteresis
pub struct Throttle {
    /// Temperature to start throttling (°C)
    throttle_start: u32,
    /// Temperature to force minimum frequency (°C)
    throttle_max: u32,
    /// Minimum frequency (kHz)
    min_freq: u64,
    /// Maximum frequency (kHz)
    max_freq: u64,
    /// Hysteresis in degrees
    hysteresis: u32,
    /// Last temperature that triggered a frequency change
    last_trigger_temp: Option<u32>,
}

/// The state of a `Throttle`, field by field.
pub struct ThrottleState {
    pub throttle_start: u32,
    pub throttle_max: u32,
    pub min_freq: u64,
    pub max_freq: u64,
    pub hysteresis: u32,
    pub last_trigger_temp: Option<u32>,
}

impl View for Throttle {
    type V = ThrottleState;

    closed spec fn view(&self) -> ThrottleState {
        ThrottleState {
            throttle_start: self.throttle_start,
            throttle_max: self.throttle_max,
            min_freq: self.min_freq,
            max_freq: self.max_freq,
            hysteresis: self.hysteresis,
            last_trigger_temp: self.last_trigger_temp,
        }
    }
}

/// The frequency (kHz) the curve gives for a temperature, before hysteresis:
/// `max_freq` below `throttle_start`, `min_freq` at or above `throttle_max`,
/// and between them `max_freq` less the rounded-down share of the frequency
/// range that the temperature has climbed through.
pub open spec fn curve(s: ThrottleState, temp: u32) -> int {
    if temp < s.throttle_start {
        s.max_freq as int
    } else if temp >= s.throttle_max {
        s.min_freq as int
    } else {
        s.max_freq - ((s.max_freq - s.min_freq) * (temp - s.throttle_start)) / (s.throttle_max
            - s.throttle_start)
    }
}

/// Which side of the thresholds a temperature lies on, in the order the
/// curve tests them: 0 below `throttle_start`, 2 at or above
/// `throttle_max`, 1 on the ramp between.
pub open spec fn band(s: ThrottleState, temp: u32) -> int {
    if temp < s.throttle_start {
        0
    } else if temp >= s.throttle_max {
        2
    } else {
        1
    }
}

/// Whether the temperature has crossed a threshold since the reading that
/// last changed the frequency target.
pub open spec fn crosses_threshold(s: ThrottleState, temp: u32) -> bool {
    s.last_trigger_temp matches Some(last) && band(s, last) != band(s, temp)
}

/// A temperature read as an `i32`, as `temp as i32` reads it.
pub open spec fn as_i32(t: u32) -> int {
    if t <= i32::MAX {
        t as int
    } else {
        t - 0x1_0000_0000
    }
}

/// How far a temperature lies from the last trigger temperature.
pub open spec fn temp_distance(a: u32, b: u32) -> int {
    let d = as_i32(a) - as_i32(b);
    if d >= 0 {
        d
    } else {
        -d
    }
}

/// Whether a reading is too close to the last trigger to change anything.
pub open spec fn within_hysteresis(s: ThrottleState, temp: u32) -> bool {
    s.last_trigger_temp matches Some(last) && temp_distance(temp, last) < s.hysteresis
}

/// The readings on which `calculate` computes without overflow: the `i32`
/// difference to the last trigger, and on the ramp the frequency range
/// (which must not be negative) times the degrees above the start.
pub open spec fn calculation_defined(s: ThrottleState, temp: u32) -> bool {
    &&& (s.last_trigger_temp matches Some(last) ==> i32::MIN <= as_i32(temp) - as_i32(last)
        <= i32::MAX)
    &&& (!within_hysteresis(s, temp) && s.throttle_start <= temp < s.throttle_max) ==> (s.min_freq
        <= s.max_freq && (s.max_freq - s.min_freq) * (temp - s.throttle_start) <= u64::MAX)
}

/// `(range * above) / span` stays within `range` when `above < span`.
proof fn lemma_reduction_bounded(range: int, above: int, span: int)
    requires
        0 <= range,
        0 <= above < span,
    ensures
        0 <= (range * above) / span <= range,
{
    lemma_mul_inequality(above, span, range);
    assert(above * range == range * above) by (nonlinear_arith);
    assert(span * range == range * span) by (nonlinear_arith);
    assert(0 <= range * above) by (nonlinear_arith)
        requires
            0 <= range,
            0 <= above,
    ;
    lemma_div_is_ordered(range * above, range * span, span);
    lemma_div_by_multiple(range, span);
    lemma_div_is_ordered(0, range * above, span);
}

impl Throttle {
    pub fn new(config: &Config, min_freq: u64, max_freq: u64) -> (r: Self)
        ensures
            r@.throttle_start == config.throttle_start,
            r@.throttle_max == config.throttle_max,
            r@.min_freq == (match config.min_freq {
                Some(f) => f,
                None => min_freq,
            }),
            r@.max_freq == (match config.max_freq {
                Some(f) => f,
                None => max_freq,
            }),
            r@.hysteresis == config.hysteresis,
            r@.last_trigger_temp is None,
    {
        Throttle {
            throttle_start: config.throttle_start,
            throttle_max: config.throttle_max,
            min_freq: match config.min_freq {
                Some(f) => f,
                None => min_freq,
            },
            max_freq: match config.max_freq {
                Some(f) => f,
                None => max_freq,
            },
            hysteresis: config.hysteresis,
            last_trigger_temp: None,
        }
    }

    /// Update thresholds (e.g., when switching profiles)
    pub fn update_thresholds(&mut self, thresholds: ProfileThresholds)
        ensures
            final(self)@ == (ThrottleState {
                throttle_start: thresholds.throttle_start,
                throttle_max: thresholds.throttle_max,
                last_trigger_temp: None,
                ..old(self)@
            }),
    {
        self.throttle_start = thresholds.throttle_start;
        self.throttle_max = thresholds.throttle_max;
        // Reset hysteresis state to force recalculation with new thresholds
        self.last_trigger_temp = None;
    }

    /// Whether this reading lies on another side of a threshold than the
    /// reading that last changed the frequency target.
    pub fn crossed_threshold(&self, temp: u32) -> (r: bool)
        ensures
            r == crosses_threshold(self@, temp),
    {
        match self.last_trigger_temp {
            Some(last) => Self::band_of(self.throttle_start, self.throttle_max, last)
                != Self::band_of(self.throttle_start, self.throttle_max, temp),
            None => false,
        }
    }

    fn band_of(start: u32, max: u32, temp: u32) -> (r: u8)
        ensures
            r as int == (if temp < start {
                0int
            } else if temp >= max {
                2int
            } else {
                1int
            }),
    {
        if temp < start {
            0
        } else if temp >= max {
            2
        } else {
            1
        }
    }

    /// Whether `calculate` can take this reading.
    pub fn can_calculate(&self, temp: u32) -> (r: bool)
        ensures
            r == calculation_defined(self@, temp),
    {
        if let Some(last) = self.last_trigger_temp {
            let d = Self::signed(temp) - Self::signed(last);
            if d < -0x8000_0000 || d > 0x7fff_ffff {
                return false;
            }
        }
        if !self.within_hysteresis(temp) && self.throttle_start <= temp && temp < self.throttle_max {
            if self.min_freq > self.max_freq {
                return false;
            }
            let range = self.max_freq - self.min_freq;
            let above = (temp - self.throttle_start) as u64;
            return range.checked_mul(above).is_some();
        }
        true
    }

    /// `t` read as an `i32`, widened so that differences cannot overflow.
    fn signed(t: u32) -> (r: i64)
        ensures
            r == as_i32(t),
    {
        if t <= 0x7fff_ffff {
            t as i64
        } else {
            t as i64 - 0x1_0000_0000
        }
    }

    pub(crate) fn within_hysteresis(&self, temp: u32) -> (r: bool)
        requires
            self@.last_trigger_temp matches Some(last) ==> i32::MIN <= as_i32(temp) - as_i32(last)
                <= i32::MAX,
        ensures
            r == within_hysteresis(self@, temp),
    {
        match self.last_trigger_temp {
            Some(last_temp) => {
                let d = Self::signed(temp) - Self::signed(last_temp);
                let diff: u32 = if d >= 0 {
                    d as u32
                } else {
                    (0 - d) as u32
                };
                diff < self.hysteresis
            },
            None => false,
        }
    }

    /// Calculate target frequency based on temperature
    /// Returns Some(freq) if frequency should change, None if within hysteresis
    pub fn calculate(&mut self, temp: u32) -> (r: Option<u64>)
        requires
            calculation_defined(old(self)@, temp),
        ensures
            within_hysteresis(old(self)@, temp) ==> r is None && final(self)@ == old(self)@,
            !within_hysteresis(old(self)@, temp) ==> r == Some(curve(old(self)@, temp) as u64)
                && final(self)@ == (ThrottleState {
                last_trigger_temp: Some(temp),
                ..old(self)@
            }),
    {
        // Check hysteresis: only change if temp moved enough from last trigger
        if self.within_hysteresis(temp) {
            return None;
        }
        let target = self.target_freq(temp);

        // Update last trigger temperature
        self.last_trigger_temp = Some(temp);

        Some(target)
    }

    /// Calculate target frequency without hysteresis check
    pub(crate) fn target_freq(&self, temp: u32) -> (r: u64)
        requires
            self@.throttle_start <= temp < self@.throttle_max ==> (self@.min_freq <= self@.max_freq
                && (self@.max_freq - self@.min_freq) * (temp - self@.throttle_start) <= u64::MAX),
        ensures
            r == curve(self@, temp),
    {
        if temp < self.throttle_start {
            // Below threshold: full speed
            self.max_freq
        } else if temp >= self.throttle_max {
            // At or above max: minimum frequency
            self.min_freq
        } else {
            // Linear interpolation
            let temp_range = (self.throttle_max - self.throttle_start) as u64;
            let freq_range = self.max_freq - self.min_freq;
            let temp_above_start = (temp - self.throttle_start) as u64;

            // Linear: max_freq at throttle_start, min_freq at throttle_max
            let reduction = (freq_range * temp_above_start) / temp_range;
            proof {
                lemma_reduction_bounded(freq_range as int, temp_above_start as int, temp_range as int);
            }
            self.max_freq - reduction
        }
    }

    /// Force recalculation on next call (clear hysteresis state)
    pub fn reset(&mut self)
        ensures
            final(self)@ == (ThrottleState { last_trigger_temp: None, ..old(self)@ }),
    {
        self.last_trigger_temp = None;
    }
}

/// With `min_freq <= max_freq`, the curve never leaves `[min_freq, max_freq]`.
pub proof fn lemma_curve_in_range(s: ThrottleState, temp: u32)
    requires
        s.min_freq <= s.max_freq,
    ensures
        s.min_freq <= curve(s, temp) <= s.max_freq,
{
    if s.throttle_start <= temp < s.throttle_max {
        lemma_reduction_bounded(
            s.max_freq - s.min_freq,
            temp - s.throttle_start,
            s.throttle_max - s.throttle_start,
        );
    }
}

/// A hotter reading never gives a higher frequency.
pub proof fn lemma_curve_non_increasing(s: ThrottleState, t1: u32, t2: u32)
    requires
        s.min_freq <= s.max_freq,
        t1 <= t2,
    ensures
        curve(s, t2) <= curve(s, t1),
{
    lemma_curve_in_range(s, t1);
    lemma_curve_in_range(s, t2);
    if s.throttle_start <= t1 && t2 < s.throttle_max {
        let range = s.max_freq - s.min_freq;
        lemma_mul_inequality(t1 - s.throttle_start, t2 - s.throttle_start, range);
        assert((t1 - s.throttle_start) * range == range * (t1 - s.throttle_start)) by (nonlinear_arith);
        assert((t2 - s.throttle_start) * range == range * (t2 - s.throttle_start)) by (nonlinear_arith);
        lemma_div_is_ordered(
            range * (t1 - s.throttle_start),
            range * (t2 - s.throttle_start),
            s.throttle_max - s.throttle_start,
        );
    }
}

/// The ramp starts at full speed: at `throttle_start` the curve gives
/// `max_freq` (when the thresholds are in order).
pub proof fn lemma_curve_at_start(s: ThrottleState)
    requires
        s.throttle_start < s.throttle_max,
    ensures
        curve(s, s.throttle_start) == s.max_freq,
{
    assert((s.max_freq - s.min_freq) * 0 == 0) by (nonlinear_arith);
}

/// A reading closer than the hysteresis to the temperature that last changed
/// the frequency changes nothing.
pub proof fn lemma_hysteresis_holds(s: ThrottleState, last: u32, temp: u32)
    requires
        s.last_trigger_temp == Some(last),
        temp_distance(temp, last) < s.hysteresis,
    ensures
        within_hysteresis(s, temp),
{
}

/// A reading is held back by the hysteresis exactly when there is a last
/// trigger temperature and the reading lies less than the hysteresis from
/// it; for temperatures that fit an `i32` the distance is the plain
/// difference.
pub proof fn lemma_hysteresis_exact(s: ThrottleState, temp: u32)
    ensures
        within_hysteresis(s, temp) ==> (s.last_trigger_temp matches Some(last) && temp_distance(
            temp,
            last,
        ) < s.hysteresis),
        s.last_trigger_temp matches Some(last) ==> (temp <= i32::MAX && last <= i32::MAX ==> {
            &&& temp_distance(temp, last) == (if temp >= last {
                temp - last
            } else {
                last - temp
            })
            &&& within_hysteresis(s, temp) <==> (if temp >= last {
                temp - last
            } else {
                last - temp
            }) < s.hysteresis
        }),
{
}

/// After the thresholds change, the next reading always gives a frequency.
pub proof fn lemma_fresh_thresholds_trigger(s: ThrottleState, temp: u32)
    requires
        s.last_trigger_temp is None,
    ensures
        !within_hysteresis(s, temp),
{
}

} // verus!
