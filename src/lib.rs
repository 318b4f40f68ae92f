//! Waiting until a deadline given as human-readable durations.
//!
//! [`duration`] turns tokens such as `"5m"` or `"1.5h"` into a total wait in
//! nanoseconds; [`schedule`] decides, one clock reading at a time, how long to
//! sleep before looking at the clock again.
pub mod duration;
pub mod schedule;
