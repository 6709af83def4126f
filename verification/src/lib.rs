//! Hierarchical timing instrumentation: scoped guards that bracket an
//! operation with start/end lines, indented by nesting depth, with the
//! elapsed time rendered by a unit-escalation policy.

pub mod clock;
pub mod depth;
pub mod digits;
pub mod duration;
pub mod indent;
pub mod noop;
pub mod style;
pub mod timer;

pub use depth::DepthCounter;
pub use indent::compute_indent;
pub use timer::TimerInfo;
