use vstd::prelude::*;

verus! {

/// The calendar or clock field that a setter touches.
#[derive(Clone, Copy, Debug, PartialEq, Eq, Structural)]
pub enum Field {
    Ordinal,
    Ordinal0,
    Year,
    Month,
    Month0,
    Day,
    Day0,
    Hour,
    Minute,
    Second,
    Nanosecond,
}

/// Why an operation on a date-time or a time delta failed.
#[derive(Clone, Debug, PartialEq, Eq)]
pub enum TimeError {
    /// A number, an instant or a duration falls outside what can be represented.
    Range,
    /// A field setter got a value that is invalid for the current date and time.
    FieldRange(Field),
    /// Text does not match the expected format: the text, the format, and the reason.
    Parse { input: String, format: String, cause: String },
    /// A fixed offset such as `-06:00` could not be read.
    InvalidOffset,
    /// A time zone name could not be resolved.
    InvalidTimezone,
    /// An auxiliary parameter (a locale, a format pattern) is not recognized.
    Config,
}

} // verus!
