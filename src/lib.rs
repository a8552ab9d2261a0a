//! Date-times with a fixed UTC offset and signed time deltas, for embedding in a scripting
//! host.
//!
//! A [`DateTimeFixed`] is an instant (whole seconds since the Unix epoch and a nanosecond
//! fraction) together with the UTC offset it is shown under. A [`Timedelta`] is a signed
//! duration of at most `i64::MAX` milliseconds. Construction from epoch counts, field access,
//! time zone resolution and all instant and duration arithmetic are verified here; calendar
//! arithmetic, text formats and the time zone database are chrono's and chrono-tz's, reached
//! through small trusted wrappers whose contracts name what they return.

pub mod arith;
pub mod calendar;
pub mod datetime;
pub mod error;
pub mod formats;
pub mod laws;
pub mod text;
pub mod timedelta;
pub mod zone;

pub use datetime::DateTimeFixed;
pub use error::{Field, TimeError};
pub use timedelta::Timedelta;
