//! A business calendar: which dates are business days, rolling a date forward
//! to the next business day, and counting business days forward or backward.

pub mod calendar;
pub mod date;
pub mod error;
pub mod laws;
pub mod weekday;

pub use calendar::CalendarState;
pub use date::Date;
pub use error::CalendarError;
pub use weekday::Weekday;
