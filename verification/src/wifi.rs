//! Wi-Fi connection state, as nl80211 reports it.
//!
//! The SSID is raw, attacker-controlled bytes from any nearby access point:
//! it is decoded lossily and stripped of control characters, then only ever
//! displayed.

use vstd::prelude::*;
use vstd::utf8::{decode_utf8, valid_utf8};
use crate::text::{chars_eq, chars_of, string_from_chars};

verus! {

#[derive(Clone, Debug, PartialEq)]
pub enum WifiState {
    Connected { ssid: String, signal: Option<u32> },
    Disconnected,
}

/// A Wi-Fi state as a mathematical value.
pub enum WifiView {
    Connected { ssid: Seq<char>, signal: Option<u32> },
    Disconnected,
}

impl View for WifiState {
    type V = WifiView;

    open spec fn view(&self) -> WifiView {
        match self {
            WifiState::Connected { ssid, signal } => WifiView::Connected {
                ssid: ssid@,
                signal: *signal,
            },
            WifiState::Disconnected => WifiView::Disconnected,
        }
    }
}

/// The view of the state a poller handed on last, if any.
pub open spec fn last_view(last: Option<WifiState>) -> Option<WifiView> {
    match last {
        Some(l) => Some(l@),
        None => None,
    }
}

/// Whether two states show the same: same SSID text and signal.
fn same_state(a: &WifiState, b: &WifiState) -> (r: bool)
    ensures
        r == (a@ == b@),
{
    match (a, b) {
        (
            WifiState::Connected { ssid: s1, signal: g1 },
            WifiState::Connected { ssid: s2, signal: g2 },
        ) => {
            let same_signal = match (g1, g2) {
                (Some(x), Some(y)) => *x == *y,
                (None, None) => true,
                _ => false,
            };
            let c1 = chars_of(s1.as_str());
            let c2 = chars_of(s2.as_str());
            same_signal && chars_eq(c1.as_slice(), c2.as_slice())
        },
        (WifiState::Disconnected, WifiState::Disconnected) => true,
        _ => false,
    }
}

/// Whether the Wi-Fi poller hands the freshly polled state on: only when it
/// shows something other than the last state it handed on (or nothing was
/// handed on yet). The states it hands on are then, by view,
/// `components::poller_sends`, which never repeats a state
/// (`components::law_poller_never_repeats`).
pub fn wifi_changed(last: &Option<WifiState>, polled: &WifiState) -> (r: bool)
    ensures
        r == (last_view(*last) != Some(polled@)),
{
    match last {
        None => true,
        Some(l) => !same_state(l, polled),
    }
}

/// The signal level in percent for a signal strength in dBm: -100 dBm and
/// below is 0, -50 dBm and above is 100, linear in between.
pub open spec fn signal_percent(dbm: int) -> int {
    let scaled = (dbm + 100) * 2;
    if scaled < 0 {
        0
    } else if scaled > 100 {
        100
    } else {
        scaled
    }
}

pub fn dbm_to_percent(dbm: i32) -> (r: u32)
    ensures
        r as int == signal_percent(dbm as int),
        r <= 100,
{
    if dbm <= -100 {
        0
    } else if dbm >= -50 {
        100
    } else {
        ((dbm + 100) * 2) as u32
    }
}

/// A stronger signal never shows a lower level.
pub proof fn law_signal_percent_monotonic(a: int, b: int)
    requires
        a <= b,
    ensures
        signal_percent(a) <= signal_percent(b),
        0 <= signal_percent(a) <= 100,
{
}

/// The glyph of a Wi-Fi state.
pub open spec fn wifi_icon(signal: Option<Option<u32>>) -> &'static str {
    match signal {
        None => "\u{f092e}",
        Some(None) => "\u{f092f}",
        Some(Some(s)) => if s == 0 {
            "\u{f092f}"
        } else if s <= 24 {
            "\u{f091f}"
        } else if s <= 49 {
            "\u{f0922}"
        } else if s <= 74 {
            "\u{f0925}"
        } else {
            "\u{f0928}"
        },
    }
}

/// The signal of a state: `None` when disconnected.
pub open spec fn state_signal(state: WifiState) -> Option<Option<u32>> {
    match state {
        WifiState::Connected { signal, .. } => Some(signal),
        WifiState::Disconnected => None,
    }
}

pub fn icon_for(state: &WifiState) -> (r: &'static str)
    ensures
        r == wifi_icon(state_signal(*state)),
{
    match state {
        WifiState::Disconnected => "\u{f092e}",
        WifiState::Connected { signal, .. } => match signal {
            None => "\u{f092f}",
            Some(s) => if *s == 0 {
                "\u{f092f}"
            } else if *s <= 24 {
                "\u{f091f}"
            } else if *s <= 49 {
                "\u{f0922}"
            } else if *s <= 74 {
                "\u{f0925}"
            } else {
                "\u{f0928}"
            },
        },
    }
}

/// What the bar reads of a wireless interface.
#[derive(Clone, Debug)]
pub struct InterfaceInfo {
    /// The netlink interface index.
    pub index: Option<i32>,
    /// The raw SSID bytes.
    pub ssid: Option<Vec<u8>>,
}

/// An interface that is connected: it has an index and a non-empty SSID.
pub open spec fn is_connected_interface(i: InterfaceInfo) -> bool {
    i.index is Some && (i.ssid matches Some(s) && s@.len() > 0)
}

/// The first connected interface, if any.
pub fn first_connected(ifaces: &[InterfaceInfo]) -> (r: Option<usize>)
    ensures
        match r {
            Some(i) => i < ifaces@.len() && is_connected_interface(ifaces@[i as int]) && forall|
                j: int,
            | 0 <= j < i ==> !is_connected_interface(#[trigger] ifaces@[j]),
            None => forall|j: int|
                0 <= j < ifaces@.len() ==> !is_connected_interface(#[trigger] ifaces@[j]),
        },
{
    let n = ifaces.len();
    for i in 0..n
        invariant
            n == ifaces@.len(),
            forall|j: int| 0 <= j < i ==> !is_connected_interface(#[trigger] ifaces@[j]),
    {
        let f = &ifaces[i];
        let connected = match &f.ssid {
            Some(s) => f.index.is_some() && s.len() > 0,
            None => false,
        };
        if connected {
            return Some(i);
        }
    }
    None
}

/// The signal level of the first station of an interface: its average
/// signal, else its last signal, in percent.
pub fn station_signal(average_signal: Option<i8>, signal: Option<i8>) -> (r: Option<u32>)
    ensures
        match average_signal {
            Some(a) => r == Some(signal_percent(a as int) as u32),
            None => match signal {
                Some(s) => r == Some(signal_percent(s as int) as u32),
                None => r is None,
            },
        },
{
    match average_signal {
        Some(a) => Some(dbm_to_percent(a as i32)),
        None => match signal {
            Some(s) => Some(dbm_to_percent(s as i32)),
            None => None,
        },
    }
}

/// Characters of Unicode general category Cc (`char::is_control`).
pub open spec fn is_control(c: char) -> bool {
    (c as u32) <= 0x1f || (0x7f <= (c as u32) && (c as u32) <= 0x9f)
}

/// `s` without its control characters.
pub open spec fn without_controls(s: Seq<char>) -> Seq<char> {
    s.filter(|c: char| !is_control(c))
}

/// What `String::from_utf8_lossy` gives for `bytes`.
pub uninterp spec fn utf8_lossy(bytes: Seq<u8>) -> Seq<char>;

/// `String::from_utf8_lossy`: the text `bytes` encode, where every invalid
/// sequence is replaced with U+FFFD. Stated: the result is named
/// `utf8_lossy`, and valid UTF-8 is decoded as it is.
#[verifier::external_body]
fn decode_lossy(bytes: &[u8]) -> (r: String)
    ensures
        r@ == utf8_lossy(bytes@),
        valid_utf8(bytes@) ==> r@ == decode_utf8(bytes@),
{
    String::from_utf8_lossy(bytes).into_owned()
}

/// An SSID as it may be displayed: decoded lossily, control characters
/// (ANSI escapes among them) removed.
pub fn display_ssid(raw: &[u8]) -> (r: String)
    ensures
        r@ == without_controls(utf8_lossy(raw@)),
        valid_utf8(raw@) ==> r@ == without_controls(decode_utf8(raw@)),
        forall|i: int| 0 <= i < r@.len() ==> !is_control(#[trigger] r@[i]),
{
    let decoded = decode_lossy(raw);
    let cs = chars_of(decoded.as_str());
    let mut out: Vec<char> = Vec::new();
    let n = cs.len();
    assert(cs@.take(0).filter(|c: char| !is_control(c)) =~= Seq::<char>::empty()) by {
        reveal_with_fuel(Seq::filter, 1);
    }
    for i in 0..n
        invariant
            n == cs@.len(),
            out@ == cs@.take(i as int).filter(|c: char| !is_control(c)),
    {
        let c = cs[i];
        assert(cs@.take(i + 1).drop_last() =~= cs@.take(i as int));
        reveal_with_fuel(Seq::filter, 1);
        let code = c as u32;
        if !(code <= 0x1f || (0x7f <= code && code <= 0x9f)) {
            out.push(c);
        }
    }
    assert(cs@.take(n as int) =~= cs@);
    proof {
        let pred = |c: char| !is_control(c);
        assert forall|i: int| 0 <= i < out@.len() implies !is_control(#[trigger] out@[i]) by {
            cs@.lemma_filter_pred(pred, i);
        }
    }
    string_from_chars(out.as_slice())
}

/// The state of a connected interface.
pub fn connected(raw_ssid: &[u8], signal: Option<u32>) -> (r: WifiState)
    ensures
        r matches WifiState::Connected { ssid, signal: s } && ssid@ == without_controls(
            utf8_lossy(raw_ssid@),
        ) && s == signal,
{
    WifiState::Connected { ssid: display_ssid(raw_ssid), signal }
}

} // verus!
