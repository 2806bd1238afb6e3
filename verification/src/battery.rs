//! Battery level and charging state, read from `/sys/class/power_supply`.

use vstd::prelude::*;
use crate::text::{chars_eq, chars_of, parse_trimmed_unsigned, parse_unsigned, trim, trimmed};

verus! {

/// Energy now and at full charge of one battery, or of all batteries summed.
#[derive(Clone, Copy, Debug, PartialEq, Eq, Structural)]
pub struct BatteryData {
    pub energy_now: u64,
    pub energy_full: u64,
}

#[derive(Clone, Copy, Debug, PartialEq, Eq, Structural)]
pub enum BatteryState {
    NoBattery,
    Present(BatteryData),
}

impl BatteryData {
    /// Two batteries taken as one.
    pub fn merge(self, r: Self) -> (m: Self)
        requires
            self.energy_now + r.energy_now <= u64::MAX,
            self.energy_full + r.energy_full <= u64::MAX,
        ensures
            m.energy_now == self.energy_now + r.energy_now,
            m.energy_full == self.energy_full + r.energy_full,
    {
        BatteryData {
            energy_now: self.energy_now + r.energy_now,
            energy_full: self.energy_full + r.energy_full,
        }
    }
}

pub open spec fn sum_now(bs: Seq<BatteryData>) -> nat
    decreases bs.len(),
{
    if bs.len() == 0 {
        0
    } else {
        sum_now(bs.drop_last()) + bs.last().energy_now as nat
    }
}

pub open spec fn sum_full(bs: Seq<BatteryData>) -> nat
    decreases bs.len(),
{
    if bs.len() == 0 {
        0
    } else {
        sum_full(bs.drop_last()) + bs.last().energy_full as nat
    }
}

proof fn lemma_sums_grow(bs: Seq<BatteryData>, k: int)
    requires
        0 <= k <= bs.len(),
    ensures
        sum_now(bs.take(k)) <= sum_now(bs),
        sum_full(bs.take(k)) <= sum_full(bs),
    decreases bs.len() - k,
{
    if k < bs.len() {
        lemma_sums_grow(bs, k + 1);
        assert(bs.take(k + 1).drop_last() =~= bs.take(k));
    } else {
        assert(bs.take(k) =~= bs);
    }
}

/// Whether the readings of all batteries can be summed without overflow.
pub fn totals_fit(readings: &[BatteryData]) -> (r: bool)
    ensures
        r == (sum_now(readings@) <= u64::MAX && sum_full(readings@) <= u64::MAX),
{
    let mut now: u64 = 0;
    let mut full: u64 = 0;
    let n = readings.len();
    assert(readings@.take(0) =~= Seq::<BatteryData>::empty());
    for i in 0..n
        invariant
            n == readings@.len(),
            now == sum_now(readings@.take(i as int)),
            full == sum_full(readings@.take(i as int)),
    {
        assert(readings@.take(i + 1).drop_last() =~= readings@.take(i as int));
        let b = readings[i];
        if b.energy_now > u64::MAX - now || b.energy_full > u64::MAX - full {
            proof {
                lemma_sums_grow(readings@, i + 1);
            }
            return false;
        }
        now = now + b.energy_now;
        full = full + b.energy_full;
    }
    assert(readings@.take(n as int) =~= readings@);
    true
}

/// All readable batteries taken as one; no battery when none could be read.
pub fn total(readings: &[BatteryData]) -> (r: BatteryState)
    requires
        sum_now(readings@) <= u64::MAX,
        sum_full(readings@) <= u64::MAX,
    ensures
        readings@.len() == 0 ==> r == BatteryState::NoBattery,
        readings@.len() > 0 ==> r == BatteryState::Present(
            BatteryData {
                energy_now: sum_now(readings@) as u64,
                energy_full: sum_full(readings@) as u64,
            },
        ),
{
    let n = readings.len();
    if n == 0 {
        return BatteryState::NoBattery;
    }
    let mut acc = BatteryData { energy_now: 0, energy_full: 0 };
    assert(readings@.take(0) =~= Seq::<BatteryData>::empty());
    for i in 0..n
        invariant
            n == readings@.len(),
            sum_now(readings@) <= u64::MAX,
            sum_full(readings@) <= u64::MAX,
            acc.energy_now == sum_now(readings@.take(i as int)),
            acc.energy_full == sum_full(readings@.take(i as int)),
    {
        assert(readings@.take(i + 1).drop_last() =~= readings@.take(i as int));
        proof {
            lemma_sums_grow(readings@, i + 1);
        }
        acc = acc.merge(readings[i]);
    }
    assert(readings@.take(n as int) =~= readings@);
    BatteryState::Present(acc)
}

/// At or below this level a discharging battery is critical.
pub const CRITICAL_PERCENT: u8 = 15;

/// A discharging battery at or below [`CRITICAL_PERCENT`].
pub fn is_critical(percent: u8, charging: bool) -> (r: bool)
    ensures
        r == (!charging && percent <= CRITICAL_PERCENT),
{
    !charging && percent <= CRITICAL_PERCENT
}

/// The glyphs of a charging battery by tens of percent, then the full one.
pub open spec fn charging_glyphs() -> Seq<&'static str> {
    seq![
        "\u{f089f}", "\u{f089c}", "\u{f0086}", "\u{f0087}", "\u{f0088}", "\u{f089d}",
        "\u{f0089}", "\u{f089e}", "\u{f008a}", "\u{f008b}", "\u{f0085}",
    ]
}

/// The glyphs of a discharging battery by tens of percent, then the full one.
pub open spec fn discharging_glyphs() -> Seq<&'static str> {
    seq![
        "\u{f008e}", "\u{f007a}", "\u{f007b}", "\u{f007c}", "\u{f007d}", "\u{f007e}",
        "\u{f007f}", "\u{f0080}", "\u{f0081}", "\u{f0082}", "\u{f0079}",
    ]
}

/// The ten-percent bucket of a level: 0 to 9, and 10 from 100 on.
pub open spec fn icon_bucket(percent: u8) -> int {
    if percent >= 100 {
        10
    } else {
        (percent / 10) as int
    }
}

/// The glyph of a battery level: one per ten percent, the last from 100 on.
pub open spec fn battery_icon(percent: u8, charging: bool) -> &'static str {
    let i = icon_bucket(percent);
    if charging {
        charging_glyphs()[i as int]
    } else {
        discharging_glyphs()[i as int]
    }
}

/// The characters of the charging glyphs, in order.
spec fn charging_chars() -> Seq<char> {
    seq!['\u{f089f}', '\u{f089c}', '\u{f0086}', '\u{f0087}', '\u{f0088}', '\u{f089d}', '\u{f0089}', '\u{f089e}', '\u{f008a}', '\u{f008b}', '\u{f0085}']
}

/// The characters of the discharging glyphs, in order.
spec fn discharging_chars() -> Seq<char> {
    seq!['\u{f008e}', '\u{f007a}', '\u{f007b}', '\u{f007c}', '\u{f007d}', '\u{f007e}', '\u{f007f}', '\u{f0080}', '\u{f0081}', '\u{f0082}', '\u{f0079}']
}

/// Each glyph is the one character listed for it.
proof fn lemma_glyph_views()
    ensures
        forall|i: int| 0 <= i < 11 ==> (#[trigger] charging_glyphs()[i])@ == seq![charging_chars()[i]],
        forall|i: int| 0 <= i < 11 ==> (#[trigger] discharging_glyphs()[i])@ == seq![
            discharging_chars()[i],
        ],
{
    reveal_strlit("\u{f089f}");
    reveal_strlit("\u{f089c}");
    reveal_strlit("\u{f0086}");
    reveal_strlit("\u{f0087}");
    reveal_strlit("\u{f0088}");
    reveal_strlit("\u{f089d}");
    reveal_strlit("\u{f0089}");
    reveal_strlit("\u{f089e}");
    reveal_strlit("\u{f008a}");
    reveal_strlit("\u{f008b}");
    reveal_strlit("\u{f0085}");
    reveal_strlit("\u{f008e}");
    reveal_strlit("\u{f007a}");
    reveal_strlit("\u{f007b}");
    reveal_strlit("\u{f007c}");
    reveal_strlit("\u{f007d}");
    reveal_strlit("\u{f007e}");
    reveal_strlit("\u{f007f}");
    reveal_strlit("\u{f0080}");
    reveal_strlit("\u{f0081}");
    reveal_strlit("\u{f0082}");
    reveal_strlit("\u{f0079}");
    assert forall|i: int| 0 <= i < 11 implies (#[trigger] charging_glyphs()[i])@ == seq![
        charging_chars()[i],
    ] by {
        assert(0 <= i < 11);
    }
    assert forall|i: int| 0 <= i < 11 implies (#[trigger] discharging_glyphs()[i])@ == seq![
        discharging_chars()[i],
    ] by {
        assert(0 <= i < 11);
    }
}

/// Two levels show the same glyph exactly when they fall in the same
/// ten-percent bucket (100 and above sharing the full one), and a charging
/// glyph is never a discharging one.
pub proof fn law_battery_icon_buckets(p: u8, q: u8, charging: bool)
    ensures
        battery_icon(p, charging) == battery_icon(q, charging) <==> icon_bucket(p) == icon_bucket(q),
        battery_icon(p, true) != battery_icon(q, false),
{
    lemma_glyph_views();
    let i = icon_bucket(p);
    let j = icon_bucket(q);
    assert(0 <= i < 11 && 0 <= j < 11);
    if battery_icon(p, charging) == battery_icon(q, charging) {
        assert(battery_icon(p, charging)@ == battery_icon(q, charging)@);
        if charging {
            assert(seq![charging_chars()[i]][0] == seq![charging_chars()[j]][0]);
        } else {
            assert(seq![discharging_chars()[i]][0] == seq![discharging_chars()[j]][0]);
        }
    }
    assert(battery_icon(p, true)@ != battery_icon(q, false)@) by {
        assert(seq![charging_chars()[i]][0] != seq![discharging_chars()[j]][0]);
    }
}

/// Each ten-percent band of charge has its own glyph, charging and
/// discharging, from empty (0 to 9 percent) to full (100 and above); the
/// band of a level is its tens digit.
pub proof fn law_battery_icon_by_level(p: u8)
    ensures
        icon_bucket(p) == (if p >= 100 {
            10
        } else {
            p as int / 10
        }),
        0 <= p <= 9 ==> battery_icon(p, true) == "\u{f089f}" && battery_icon(p, false)
            == "\u{f008e}",
        10 <= p <= 19 ==> battery_icon(p, true) == "\u{f089c}" && battery_icon(p, false)
            == "\u{f007a}",
        20 <= p <= 29 ==> battery_icon(p, true) == "\u{f0086}" && battery_icon(p, false)
            == "\u{f007b}",
        30 <= p <= 39 ==> battery_icon(p, true) == "\u{f0087}" && battery_icon(p, false)
            == "\u{f007c}",
        40 <= p <= 49 ==> battery_icon(p, true) == "\u{f0088}" && battery_icon(p, false)
            == "\u{f007d}",
        50 <= p <= 59 ==> battery_icon(p, true) == "\u{f089d}" && battery_icon(p, false)
            == "\u{f007e}",
        60 <= p <= 69 ==> battery_icon(p, true) == "\u{f0089}" && battery_icon(p, false)
            == "\u{f007f}",
        70 <= p <= 79 ==> battery_icon(p, true) == "\u{f089e}" && battery_icon(p, false)
            == "\u{f0080}",
        80 <= p <= 89 ==> battery_icon(p, true) == "\u{f008a}" && battery_icon(p, false)
            == "\u{f0081}",
        90 <= p <= 99 ==> battery_icon(p, true) == "\u{f008b}" && battery_icon(p, false)
            == "\u{f0082}",
        p >= 100 ==> battery_icon(p, true) == "\u{f0085}" && battery_icon(p, false)
            == "\u{f0079}",
{
}

pub fn icon_for(percent: u8, charging: bool) -> (r: &'static str)
    ensures
        r == battery_icon(percent, charging),
{
    let i = if percent >= 100 {
        10
    } else {
        percent / 10
    };
    if charging {
        match i {
            0 => "\u{f089f}",
            1 => "\u{f089c}",
            2 => "\u{f0086}",
            3 => "\u{f0087}",
            4 => "\u{f0088}",
            5 => "\u{f089d}",
            6 => "\u{f0089}",
            7 => "\u{f089e}",
            8 => "\u{f008a}",
            9 => "\u{f008b}",
            _ => "\u{f0085}",
        }
    } else {
        match i {
            0 => "\u{f008e}",
            1 => "\u{f007a}",
            2 => "\u{f007b}",
            3 => "\u{f007c}",
            4 => "\u{f007d}",
            5 => "\u{f007e}",
            6 => "\u{f007f}",
            7 => "\u{f0080}",
            8 => "\u{f0081}",
            9 => "\u{f0082}",
            _ => "\u{f0079}",
        }
    }
}

/// A battery from the texts of its `energy_now` and `energy_full` files,
/// when both hold a number.
pub fn battery_data(energy_now: &str, energy_full: &str) -> (r: Option<BatteryData>)
    ensures
        match (
            parse_unsigned(trim(energy_now@), u64::MAX as nat),
            parse_unsigned(trim(energy_full@), u64::MAX as nat),
        ) {
            (Some(n), Some(f)) => r == Some(
                BatteryData { energy_now: n as u64, energy_full: f as u64 },
            ),
            _ => r is None,
        },
{
    let now = parse_trimmed_unsigned(energy_now, u64::MAX);
    let full = parse_trimmed_unsigned(energy_full, u64::MAX);
    match (now, full) {
        (Some(n), Some(f)) => Some(BatteryData { energy_now: n, energy_full: f }),
        _ => None,
    }
}

/// Whether a mains supply is online, from the text of its `online` file: a
/// number from 0 to 255, where 0 is offline and anything else online.
pub fn online_from(text: &str) -> (r: Option<bool>)
    ensures
        match parse_unsigned(trim(text@), 255) {
            Some(v) => r == Some(v != 0),
            None => r is None,
        },
{
    match parse_trimmed_unsigned(text, 255) {
        Some(v) => Some(v != 0),
        None => None,
    }
}

/// The battery charges when any mains supply reads online.
pub fn is_charging(onlines: &[Option<bool>]) -> (r: bool)
    ensures
        r == exists|i: int| 0 <= i < onlines@.len() && onlines@[i] == Some(true),
{
    let n = onlines.len();
    for i in 0..n
        invariant
            n == onlines@.len(),
            forall|k: int| 0 <= k < i ==> onlines@[k] != Some(true),
    {
        if let Some(true) = onlines[i] {
            return true;
        }
    }
    false
}

/// The kinds of power supply the battery widget reads.
#[derive(Clone, Copy, Debug, PartialEq, Eq, Structural)]
pub enum SupplyKind {
    Battery,
    Mains,
}

/// The kind of a power supply from the text of its `type` file.
pub fn supply_kind(type_text: &str) -> (r: Option<SupplyKind>)
    ensures
        r == (if trim(type_text@) == "Battery"@ {
            Some(SupplyKind::Battery)
        } else if trim(type_text@) == "Mains"@ {
            Some(SupplyKind::Mains)
        } else {
            None
        }),
{
    let cs = chars_of(type_text);
    let t = trimmed(cs.as_slice());
    let battery = chars_of("Battery");
    let mains = chars_of("Mains");
    if chars_eq(t.as_slice(), battery.as_slice()) {
        Some(SupplyKind::Battery)
    } else if chars_eq(t.as_slice(), mains.as_slice()) {
        Some(SupplyKind::Mains)
    } else {
        None
    }
}

} // verus!
