//! The widgets a bar is made of, the decision of the background pollers that
//! feed them, and the clock.

use vstd::prelude::*;
use crate::bar::Orientation;
use crate::text::{decimal_digits, push_decimal, string_from_chars};

verus! {

/// One widget of the bar, in the order the configuration lists them.
#[derive(Clone, Copy, Debug, PartialEq, Eq, Structural)]
pub enum Component {
    /// A single glyph shown as the bar's logo.
    Logo(char),
    Workspaces,
    Spacer,
    Battery,
    Wifi,
    Brightness,
    Volume,
    Clock,
}

/// Whether a poller hands the freshly polled state on: only when it differs
/// from the last state it handed on (or nothing was handed on yet).
pub fn poll_changed<S: PartialEq>(last: &Option<S>, polled: &S) -> (r: bool)
    ensures
        vstd::laws_eq::obeys_concrete_eq::<S>() ==> r == (*last != Some(*polled)),
{
    proof {
        reveal(vstd::laws_eq::obeys_concrete_eq);
    }
    match last {
        None => true,
        Some(l) => !(l == polled),
    }
}

/// The states a poller sends for successive poll results `polls`, having
/// last sent `last`: each `Some` that differs from the last state sent (the
/// decision of [`poll_changed`]); a `None` sends nothing and keeps the last
/// state.
pub open spec fn poller_sends<S>(last: Option<S>, polls: Seq<Option<S>>) -> Seq<S>
    decreases polls.len(),
{
    if polls.len() == 0 {
        seq![]
    } else {
        match polls[0] {
            Some(s) => if last != Some(s) {
                seq![s] + poller_sends(Some(s), polls.drop_first())
            } else {
                poller_sends(last, polls.drop_first())
            },
            None => poller_sends(last, polls.drop_first()),
        }
    }
}

/// A poller never sends the same state twice in a row, never first resends
/// the state it sent last, and sends a first poll result that differs from
/// it at once.
pub proof fn law_poller_never_repeats<S>(last: Option<S>, polls: Seq<Option<S>>)
    ensures
        forall|i: int|
            0 <= i < poller_sends(last, polls).len() - 1 ==> #[trigger] poller_sends(
                last,
                polls,
            )[i] != poller_sends(last, polls)[i + 1],
        poller_sends(last, polls).len() > 0 ==> last != Some(poller_sends(last, polls)[0]),
        polls.len() > 0 && polls[0] is Some && last != polls[0] ==> poller_sends(last, polls).len()
            > 0 && Some(poller_sends(last, polls)[0]) == polls[0],
    decreases polls.len(),
{
    if polls.len() > 0 {
        let rest = polls.drop_first();
        match polls[0] {
            Some(s) => if last != Some(s) {
                law_poller_never_repeats(Some(s), rest);
                let tail = poller_sends(Some(s), rest);
                let all = seq![s] + tail;
                assert(poller_sends(last, polls) == all);
                assert forall|i: int| 0 <= i < all.len() - 1 implies #[trigger] all[i] != all[i
                    + 1] by {
                    if i > 0 {
                        assert(all[i] == tail[i - 1]);
                        assert(all[i + 1] == tail[i]);
                    }
                }
            } else {
                law_poller_never_repeats(last, rest);
            },
            None => law_poller_never_repeats(last, rest),
        }
    }
}

pub const SECONDS_PER_DAY: u64 = 86400;

/// Hours, minutes and seconds of the time of day (UTC) `secs` seconds after
/// the Unix epoch.
pub fn hms_of(secs: u64) -> (r: (u8, u8, u8))
    ensures
        r.0 as int == (secs % 86400) / 3600,
        r.1 as int == ((secs % 86400) % 3600) / 60,
        r.2 as int == (secs % 86400) % 60,
        r.0 < 24 && r.1 < 60 && r.2 < 60,
{
    let day_secs = secs % SECONDS_PER_DAY;
    let h = (day_secs / 3600) as u8;
    let m = ((day_secs % 3600) / 60) as u8;
    let s = (day_secs % 60) as u8;
    (h, m, s)
}

/// `n` as `format!("{n:02}")` writes it.
pub open spec fn pad2(n: nat) -> Seq<char> {
    if n < 10 {
        seq!['0'] + decimal_digits(n)
    } else {
        decimal_digits(n)
    }
}

fn push_pad2(out: &mut Vec<char>, n: u8)
    ensures
        final(out)@ == old(out)@ + pad2(n as nat),
{
    if n < 10 {
        out.push('0');
    }
    push_decimal(out, n as u64);
    proof {
        if n < 10 {
            assert(final(out)@ =~= old(out)@ + pad2(n as nat));
        }
    }
}

/// The character between hours, minutes and seconds: a space on a
/// horizontal bar, a line break on a vertical one.
pub open spec fn clock_separator(orientation: Orientation) -> char {
    if orientation is Horizontal {
        ' '
    } else {
        '\n'
    }
}

/// The clock's text: two-digit hours, minutes and seconds joined by the
/// separator of the bar's orientation.
pub fn clock_text(h: u8, m: u8, s: u8, orientation: Orientation) -> (r: String)
    ensures
        r@ == pad2(h as nat) + seq![clock_separator(orientation)] + pad2(m as nat) + seq![
            clock_separator(orientation),
        ] + pad2(s as nat),
{
    let c = match orientation {
        Orientation::Horizontal => ' ',
        Orientation::Vertical => '\n',
    };
    let mut out: Vec<char> = Vec::new();
    push_pad2(&mut out, h);
    out.push(c);
    push_pad2(&mut out, m);
    out.push(c);
    push_pad2(&mut out, s);
    assert(out@ =~= pad2(h as nat) + seq![c] + pad2(m as nat) + seq![c] + pad2(s as nat));
    string_from_chars(out.as_slice())
}

} // verus!
