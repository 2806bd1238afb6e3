//! Backlight brightness, read from and written to `/sys/class/backlight`.

use vstd::prelude::*;
use crate::text::{
    chars_lt, lemma_seq_lt_asymmetric, lemma_seq_lt_irreflexive, lemma_seq_lt_total,
    lemma_seq_lt_transitive, parse_trimmed_unsigned, parse_unsigned, seq_lt, trim,
};

verus! {

#[derive(Clone, Copy, Debug, PartialEq, Eq, Structural)]
pub enum BrightnessState {
    NoDevice,
    Present(u8),
}

/// A backlight's current and largest brightness, in the device's own units.
#[derive(Clone, Copy, Debug, PartialEq, Eq, Structural)]
pub struct Brightness {
    pub actual_brightness: u64,
    pub max_brightness: u64,
}

/// How a click or a scroll changes the brightness.
#[derive(Clone, Copy, Debug, PartialEq, Eq, Structural)]
pub enum SetValue {
    /// Set the value to this, in the device's units.
    Absolute(u64),
    /// Increase (positive) or decrease (negative) by this many percent of
    /// the largest brightness.
    Relative(i8),
}

pub open spec fn saturating_mul(a: nat, b: nat) -> nat {
    if a * b > u64::MAX {
        u64::MAX as nat
    } else {
        a * b
    }
}

/// `a.saturating_mul(b)` for `u64`.
pub fn sat_mul(a: u64, b: u64) -> (r: u64)
    ensures
        r as nat == saturating_mul(a as nat, b as nat),
{
    assert((a as u128) * (b as u128) <= 0xffff_ffff_ffff_ffff_u128 * 0xffff_ffff_ffff_ffff_u128)
        by (nonlinear_arith);
    let wide: u128 = (a as u128) * (b as u128);
    if wide > u64::MAX as u128 {
        u64::MAX
    } else {
        wide as u64
    }
}

pub open spec fn min_nat(a: nat, b: nat) -> nat {
    if a <= b {
        a
    } else {
        b
    }
}

impl Brightness {
    /// The brightness in percent of the largest, rounded down and at most 100.
    pub open spec fn spec_percent(self) -> nat {
        let divisor: nat = if self.max_brightness == 0 {
            1
        } else {
            self.max_brightness as nat
        };
        min_nat(saturating_mul(self.actual_brightness as nat, 100) / divisor, 100)
    }

    /// A device from the texts of its `brightness` and `max_brightness`
    /// files, when both hold a number and the largest brightness is not 0.
    pub fn from_readings(brightness: &str, max_brightness: &str) -> (r: Option<Brightness>)
        ensures
            match (
                parse_unsigned(trim(brightness@), u64::MAX as nat),
                parse_unsigned(trim(max_brightness@), u64::MAX as nat),
            ) {
                (Some(a), Some(m)) => if m == 0 {
                    r is None
                } else {
                    r == Some(
                        Brightness { actual_brightness: a as u64, max_brightness: m as u64 },
                    )
                },
                _ => r is None,
            },
    {
        let actual = parse_trimmed_unsigned(brightness, u64::MAX);
        let max = parse_trimmed_unsigned(max_brightness, u64::MAX);
        match (actual, max) {
            (Some(a), Some(m)) => if m == 0 {
                None
            } else {
                Some(Brightness { actual_brightness: a, max_brightness: m })
            },
            _ => None,
        }
    }

    pub fn percent(&self) -> (r: u8)
        ensures
            r as nat == self.spec_percent(),
            r <= 100,
    {
        let product = sat_mul(self.actual_brightness, 100);
        let divisor = if self.max_brightness == 0 {
            1
        } else {
            self.max_brightness
        };
        let percent = product / divisor;
        if percent > 100 {
            100
        } else {
            percent as u8
        }
    }

    /// A relative increase does not overflow before it is capped.
    pub open spec fn target_fits(self, set_value: SetValue) -> bool {
        match set_value {
            SetValue::Relative(p) => p > 0 ==> self.actual_brightness + saturating_mul(
                p as nat,
                self.max_brightness as nat,
            ) / 100 <= u64::MAX,
            _ => true,
        }
    }

    /// The brightness to write for a change.
    pub open spec fn spec_target(self, set_value: SetValue) -> nat {
        match set_value {
            SetValue::Absolute(a) => a as nat,
            SetValue::Relative(r) => if r > 0 {
                min_nat(
                    self.max_brightness as nat,
                    self.actual_brightness as nat + saturating_mul(
                        r as nat,
                        self.max_brightness as nat,
                    ) / 100,
                )
            } else {
                let neg: nat = if r < -127 {
                    127
                } else {
                    (-r) as nat
                };
                let step = saturating_mul(neg, self.max_brightness as nat) / 100;
                if step >= self.actual_brightness {
                    0
                } else {
                    (self.actual_brightness - step) as nat
                }
            },
        }
    }

    /// The brightness to write: an absolute value as is; a relative change of
    /// `r` percent of the largest brightness (a decrease of at most 127
    /// percent), rounded down, upward capped at the largest brightness and
    /// downward at 0.
    pub fn target(&self, set_value: SetValue) -> (r: u64)
        requires
            self.target_fits(set_value),
        ensures
            r as nat == self.spec_target(set_value),
    {
        match set_value {
            SetValue::Absolute(a) => a,
            SetValue::Relative(r) => {
                if r > 0 {
                    let step = sat_mul(r as u64, self.max_brightness) / 100;
                    let up = self.actual_brightness + step;
                    if self.max_brightness <= up {
                        self.max_brightness
                    } else {
                        up
                    }
                } else {
                    let neg: u64 = if r == -128 {
                        127
                    } else {
                        (-r) as u64
                    };
                    let step = sat_mul(neg, self.max_brightness) / 100;
                    self.actual_brightness.saturating_sub(step)
                }
            },
        }
    }

    /// The device after writing `target(set_value)`.
    pub fn set(&self, set_value: SetValue) -> (r: Brightness)
        requires
            self.target_fits(set_value),
        ensures
            r.actual_brightness as nat == self.spec_target(set_value),
            r.max_brightness == self.max_brightness,
    {
        Brightness { actual_brightness: self.target(set_value), max_brightness: self.max_brightness }
    }
}

impl Brightness {
    /// The device after a change, or `None` when a relative increase would
    /// overflow `u64` before it is capped.
    pub fn checked_set(&self, set_value: SetValue) -> (r: Option<Brightness>)
        ensures
            r is None <==> !self.target_fits(set_value),
            r matches Some(b) ==> b.actual_brightness as nat == self.spec_target(set_value)
                && b.max_brightness == self.max_brightness,
    {
        let fits = match set_value {
            SetValue::Relative(p) => if p > 0 {
                sat_mul(p as u64, self.max_brightness) / 100 <= u64::MAX - self.actual_brightness
            } else {
                true
            },
            SetValue::Absolute(_) => true,
        };
        if fits {
            Some(self.set(set_value))
        } else {
            None
        }
    }
}

/// A relative increase never goes above the largest brightness, and from a
/// brightness at or below the largest never lowers it; a relative decrease
/// never raises the brightness.
pub proof fn law_relative_change_direction(b: Brightness, p: i8)
    ensures
        p > 0 ==> b.spec_target(SetValue::Relative(p)) <= b.max_brightness,
        p > 0 && b.actual_brightness <= b.max_brightness ==> b.actual_brightness
            <= b.spec_target(SetValue::Relative(p)),
        p <= 0 ==> b.spec_target(SetValue::Relative(p)) <= b.actual_brightness,
{
}

/// The change a scroll makes: up by `step` percent when `step` fits an `i8`
/// (else no change), down by `step` percent capped at 127.
pub fn scroll_step(step: u8, up: bool) -> (r: i8)
    ensures
        up ==> r as int == (if step <= 127 {
            step as int
        } else {
            0
        }),
        !up ==> r as int == -(if step <= 127 {
            step as int
        } else {
            127
        }),
{
    if up {
        if step <= 127 {
            step as i8
        } else {
            0
        }
    } else {
        let s: u8 = if step <= 127 {
            step
        } else {
            127
        };
        -(s as i8)
    }
}

/// The glyph of a brightness level.
pub open spec fn brightness_icon(percent: u8) -> &'static str {
    if percent <= 1 {
        "\u{f186}"
    } else if percent <= 33 {
        "\u{f00de}"
    } else if percent <= 66 {
        "\u{f00df}"
    } else {
        "\u{f00e0}"
    }
}

pub fn icon_for(percent: u8) -> (r: &'static str)
    ensures
        r == brightness_icon(percent),
{
    if percent <= 1 {
        "\u{f186}"
    } else if percent <= 33 {
        "\u{f00de}"
    } else if percent <= 66 {
        "\u{f00df}"
    } else {
        "\u{f00e0}"
    }
}

/// A backlight device found under `/sys/class/backlight`.
#[derive(Clone, Debug)]
pub struct Backlight {
    pub max_brightness: u32,
    /// The device's path.
    pub path: Vec<char>,
}

/// Whether device `a` is preferred to device `b`: a larger largest
/// brightness, then the smaller path.
pub open spec fn preferred(a: Backlight, b: Backlight) -> bool {
    a.max_brightness > b.max_brightness || (a.max_brightness == b.max_brightness && seq_lt(
        a.path@,
        b.path@,
    ))
}

/// Device `i` is the one to use: no device is preferred to it, and it is
/// preferred to every device listed before it.
pub open spec fn is_chosen_device(ds: Seq<Backlight>, i: int) -> bool {
    &&& 0 <= i < ds.len()
    &&& forall|j: int| 0 <= j < ds.len() ==> !preferred(#[trigger] ds[j], ds[i])
    &&& forall|j: int| 0 <= j < i ==> preferred(ds[i], #[trigger] ds[j])
}

fn is_preferred(a: &Backlight, b: &Backlight) -> (r: bool)
    ensures
        r == preferred(*a, *b),
{
    a.max_brightness > b.max_brightness || (a.max_brightness == b.max_brightness && chars_lt(
        a.path.as_slice(),
        b.path.as_slice(),
    ))
}

proof fn lemma_preferred_order(a: Backlight, b: Backlight, c: Backlight)
    ensures
        !preferred(a, a),
        preferred(a, b) ==> !preferred(b, a),
        preferred(a, b) && preferred(b, c) ==> preferred(a, c),
        !preferred(a, b) && !preferred(b, a) ==> a.max_brightness == b.max_brightness
            && a.path@ == b.path@,
        preferred(a, b) && !preferred(c, b) ==> preferred(a, c),
{
    lemma_seq_lt_irreflexive(a.path@);
    lemma_seq_lt_total(a.path@, b.path@);
    lemma_seq_lt_total(b.path@, c.path@);
    if seq_lt(a.path@, b.path@) {
        lemma_seq_lt_asymmetric(a.path@, b.path@);
    }
    if seq_lt(a.path@, b.path@) && seq_lt(b.path@, c.path@) {
        lemma_seq_lt_transitive(a.path@, b.path@, c.path@);
    }
}

/// The device to use: the one with the largest largest brightness, the
/// smallest path among those, the first listed among equal ones.
pub fn choose_device(ds: &[Backlight]) -> (r: Option<usize>)
    ensures
        ds@.len() == 0 <==> r is None,
        r matches Some(i) ==> is_chosen_device(ds@, i as int),
{
    let n = ds.len();
    if n == 0 {
        return None;
    }
    let mut best: usize = 0;
    let mut k: usize = 1;
    proof {
        lemma_preferred_order(ds@[0], ds@[0], ds@[0]);
    }
    while k < n
        invariant
            n == ds@.len(),
            best < k <= n,
            forall|j: int| 0 <= j < k ==> !preferred(#[trigger] ds@[j], ds@[best as int]),
            forall|j: int| 0 <= j < best ==> preferred(ds@[best as int], #[trigger] ds@[j]),
        decreases n - k,
    {
        if is_preferred(&ds[k], &ds[best]) {
            proof {
                assert forall|j: int| 0 <= j < k + 1 implies !preferred(
                    #[trigger] ds@[j],
                    ds@[k as int],
                ) by {
                    lemma_preferred_order(ds@[k as int], ds@[best as int], ds@[j]);
                    lemma_preferred_order(ds@[j], ds@[k as int], ds@[best as int]);
                }
                assert forall|j: int| 0 <= j < k implies preferred(
                    ds@[k as int],
                    #[trigger] ds@[j],
                ) by {
                    lemma_preferred_order(ds@[k as int], ds@[best as int], ds@[j]);
                }
            }
            best = k;
        } else {
            proof {
                lemma_preferred_order(ds@[k as int], ds@[k as int], ds@[k as int]);
            }
        }
        k = k + 1;
    }
    Some(best)
}

} // verus!
