//! The lines the bar writes to standard error: no logging framework.

use vstd::prelude::*;
use crate::text::{chars_of, string_from_chars};

verus! {

fn push_all(out: &mut Vec<char>, s: &str)
    ensures
        final(out)@ == old(out)@ + s@,
{
    let cs = chars_of(s);
    let ghost start = out@;
    let n = cs.len();
    for k in 0..n
        invariant
            n == cs@.len(),
            cs@ == s@,
            out@ == start + cs@.take(k as int),
    {
        out.push(cs[k]);
        assert(out@ =~= start + cs@.take(k + 1));
    }
    assert(cs@.take(n as int) =~= cs@);
}

fn line(level: &str, component: &str, message: &str) -> (r: String)
    ensures
        r@ == "tkbar: "@ + level@ + ": "@ + component@ + ": "@ + message@,
{
    let mut out: Vec<char> = Vec::new();
    push_all(&mut out, "tkbar: ");
    push_all(&mut out, level);
    push_all(&mut out, ": ");
    push_all(&mut out, component);
    push_all(&mut out, ": ");
    push_all(&mut out, message);
    assert(out@ =~= "tkbar: "@ + level@ + ": "@ + component@ + ": "@ + message@);
    string_from_chars(out.as_slice())
}

/// `tkbar: warning: <component>: <message>`.
pub fn warning_line(component: &str, message: &str) -> (r: String)
    ensures
        r@ == "tkbar: "@ + "warning"@ + ": "@ + component@ + ": "@ + message@,
{
    line("warning", component, message)
}

/// `tkbar: error: <component>: <message>`.
pub fn error_line(component: &str, message: &str) -> (r: String)
    ensures
        r@ == "tkbar: "@ + "error"@ + ": "@ + component@ + ": "@ + message@,
{
    line("error", component, message)
}

} // verus!
