//! Speaker volume and mute state, as `wpctl get-volume` reports them.

use vstd::prelude::*;
use crate::text::{
    chars_of, contains, contains_chars, decimal_digits, push_decimal, split_words,
    string_from_chars, words,
};

verus! {

#[derive(Clone, Copy, Debug, PartialEq, Eq, Structural)]
pub struct VolState {
    pub percent: u32,
    pub muted: bool,
}

/// The glyph of a volume state.
pub open spec fn volume_icon(state: VolState) -> &'static str {
    if state.muted {
        "\u{f075f}"
    } else if state.percent <= 20 {
        "\u{f057f}"
    } else if state.percent <= 50 {
        "\u{f0580}"
    } else if state.percent <= 100 {
        "\u{f057e}"
    } else {
        "\u{f1121}"
    }
}

pub fn icon_for(state: &VolState) -> (r: &'static str)
    ensures
        r == volume_icon(*state),
{
    if state.muted {
        "\u{f075f}"
    } else if state.percent <= 20 {
        "\u{f057f}"
    } else if state.percent <= 50 {
        "\u{f0580}"
    } else if state.percent <= 100 {
        "\u{f057e}"
    } else {
        "\u{f1121}"
    }
}

/// `wpctl get-volume` reports a muted sink with `[MUTED]`.
pub fn is_muted(text: &str) -> (r: bool)
    ensures
        r == contains(text@, "[MUTED]"@),
{
    let t = chars_of(text);
    let marker = chars_of("[MUTED]");
    contains_chars(t.as_slice(), marker.as_slice())
}

/// The volume fraction field of `wpctl get-volume` output (`Volume: X.XX`
/// or `Volume: X.XX [MUTED]`): its second word, if it has one.
pub fn volume_field(text: &str) -> (r: Option<String>)
    ensures
        words(text@).len() > 1 <==> r is Some,
        r matches Some(f) ==> f@ == words(text@)[1],
{
    let t = chars_of(text);
    let ws = split_words(t.as_slice());
    if ws.len() > 1 {
        assert(crate::text::views_of(ws@)[1] == ws@[1]@);
        Some(string_from_chars(ws[1].as_slice()))
    } else {
        None
    }
}

/// The `wpctl set-volume` argument of one scroll step of `step` percent:
/// `"<step>%+"` to raise the volume, `"<step>%-"` to lower it.
pub fn volume_step_arg(step: u8, up: bool) -> (r: String)
    ensures
        r@ == decimal_digits(step as nat) + seq!['%', if up { '+' } else { '-' }],
{
    let mut cs: Vec<char> = Vec::new();
    push_decimal(&mut cs, step as u64);
    cs.push('%');
    cs.push(if up { '+' } else { '-' });
    assert(cs@ =~= decimal_digits(step as nat) + seq!['%', if up { '+' } else { '-' }]);
    string_from_chars(cs.as_slice())
}

} // verus!
