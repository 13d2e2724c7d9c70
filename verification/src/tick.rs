use vstd::prelude::*;

verus! {

/// Instrument's price change event, decoded from one 20-byte wire record.
///
/// Prices are kept in the vendor's 5-decimal fixed-point encoding: the
/// quoted ask price is `ask_scaled / 100000`, likewise for the bid. The
/// volumes are kept as the raw IEEE-754 single-precision bit patterns read
/// from the wire; widening them to a floating-point value is left to the
/// caller, so that every field here is a plain integer.
#[derive(Debug, Clone, Copy, PartialEq, Eq, Structural)]
pub struct Tick {
    /// Seconds since the Unix epoch (UTC) of the hour bucket, plus the raw
    /// millisecond-scale offset field of the record. The offset is added
    /// directly, with no unit conversion — a quirk of the vendor's format
    /// that must be preserved to match the vendor's own decoding.
    pub time: i64,

    /// Ask price in 5-decimal fixed point (price = ask_scaled / 100000).
    pub ask_scaled: u32,
    /// Bid price in 5-decimal fixed point (price = bid_scaled / 100000).
    pub bid_scaled: u32,
    /// IEEE-754 single-precision bits of the ask volume.
    pub ask_volume_bits: u32,
    /// IEEE-754 single-precision bits of the bid volume.
    pub bid_volume_bits: u32,
}

} // verus!
