//! A throughput micro-benchmark.
//!
//! Workers duplicate a payload in a busy loop and count their rounds in a
//! shared counter; a reporter renders the count, the elapsed time and the
//! speed as a line of fixed width; an interrupt lowers the run flag and
//! everything winds down.
//!
//! - [`input`]: what a line entered at the prompt leads to.
//! - [`worker`]: the worker's loop and the stop request.
//! - [`reporter`]: what the reporter does on each wake-up.
//! - [`line`]: the statistics line and its width.
//! - [`rate`], [`decimal`]: the figures of the line, in fixed point, and
//!   their text.
//! - [`shared`], [`sink`]: the laws of the shared values and of the log, over
//!   every run.

pub mod decimal;
pub mod input;
pub mod line;
pub mod rate;
pub mod reporter;
pub mod shared;
pub mod sink;
pub mod worker;
