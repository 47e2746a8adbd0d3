//! Fixed-width UTC instants and signed durations, counted in nanoseconds, with
//! alignment to a frequency and stepped ranges of instants.
pub mod calendar;
pub mod delta;
pub mod range;
pub mod timestamp;

pub use delta::TimeDelta;
pub use range::TimeRange;
pub use timestamp::Timestamp;
