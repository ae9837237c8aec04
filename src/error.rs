use vstd::prelude::*;

verus! {

/// Why a calendar configuration or a date argument was refused.
#[derive(Clone, Copy, Debug, PartialEq, Eq, Structural)]
pub enum CalendarError {
    /// A date string is not `YYYY-MM-DD` or names no calendar date.
    ParseError,
    /// A working-day token is not one of `mon` .. `sun`.
    InvalidInput,
}

} // verus!
