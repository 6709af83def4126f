//! The no-op build variant: a guard with the same call surface as the
//! instrumented one, whose creation and disposal do nothing at all — no
//! counter access, no timestamp, no output. A build that wants zero-cost
//! instrumentation uses this module in place of the instrumented one.

use vstd::prelude::*;
use crate::depth::DepthCounter;

verus! {

/// A no-op guard: carries no label, no timestamp and no state.
pub struct TimerInfo {
}

/// Creates a no-op guard: the counter is untouched and no start line is
/// yielded.
pub fn timer_start(counter: &mut DepthCounter, msg: String, colors_disabled: bool) -> (r: (
    TimerInfo,
    Option<String>,
))
    ensures
        *final(counter) == *old(counter),
        r.1 is None,
{
    let _ = msg;
    let _ = colors_disabled;
    (TimerInfo {  }, None)
}

/// Disposes a no-op guard with a suffix: the counter is untouched and no end
/// line is yielded, however often it is called.
pub fn timer_end_with(
    counter: &mut DepthCounter,
    info: &mut TimerInfo,
    suffix: &str,
    colors_disabled: bool,
) -> (r: Option<String>)
    ensures
        *final(counter) == *old(counter),
        *final(info) == *old(info),
        r is None,
{
    let _ = suffix;
    let _ = colors_disabled;
    None
}

/// Disposes a no-op guard with an empty suffix: the counter is untouched and
/// no end line is yielded.
pub fn timer_end(counter: &mut DepthCounter, info: &mut TimerInfo, colors_disabled: bool) -> (r:
    Option<String>)
    ensures
        *final(counter) == *old(counter),
        *final(info) == *old(info),
        r is None,
{
    timer_end_with(counter, info, "", colors_disabled)
}

} // verus!
