use vstd::prelude::*;

verus! {

/// A vehicle's most recent known location.
///
/// Latitude and longitude are carried as the raw bit patterns of the
/// caller's 64-bit floating-point coordinates; the service never computes
/// with them, it only stores and returns them, so the bit pattern is the
/// value.  The timestamp is server-assigned, in milliseconds since the Unix
/// epoch.
#[derive(Clone, Copy, Debug, PartialEq, Eq, Structural)]
pub struct Position {
    pub latitude_bits: u64,
    pub longitude_bits: u64,
    pub timestamp_ms: i64,
}

impl Position {
    /// Builds a position from raw coordinate bits and a timestamp.
    pub fn new(latitude_bits: u64, longitude_bits: u64, timestamp_ms: i64) -> (p: Position)
        ensures
            p == (Position { latitude_bits, longitude_bits, timestamp_ms }),
    {
        Position { latitude_bits, longitude_bits, timestamp_ms }
    }
}

} // verus!
