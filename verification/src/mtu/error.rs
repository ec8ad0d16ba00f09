use vstd::prelude::*;

verus! {

/// Errors of the meter-reading unit.
#[derive(Debug, Clone, Copy, PartialEq, Eq, Structural)]
pub enum MtuError {
    /// A frame had the wrong length or did not decode to a character.
    FramingError,
    /// A frame's bit count does not match its format.
    FramingErrorInvalidBitCount,
    /// A GPIO, timer or thread operation failed.
    GpioError,
}

pub type MtuResult<T> = Result<T, MtuError>;

} // verus!
