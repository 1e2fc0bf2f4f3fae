use vstd::prelude::*;

verus! {

/// Reference transmit power, in dBm, of the log-distance path-loss model.
pub const TX_POWER: i32 = -30;

/// Twenty times the base-ten logarithm of the estimated distance in meters:
/// the estimate is `10 ^ (path_loss(s) / 20)`.
pub open spec fn path_loss(signal_strength: int) -> int {
    TX_POWER as int - signal_strength
}

/// The exponent, in dB, of the distance estimate for a reading of
/// `signal_strength` dBm; the distance is `10 ^ (r / 20)` meters.
pub fn distance_exponent(signal_strength: i32) -> (r: i64)
    ensures
        r as int == path_loss(signal_strength as int),
{
    TX_POWER as i64 - signal_strength as i64
}

/// A stronger reading never has a larger distance exponent, so never a larger
/// estimated distance.
pub proof fn lemma_stronger_signal_not_farther(weaker: int, stronger: int)
    requires
        weaker <= stronger,
    ensures
        path_loss(stronger) <= path_loss(weaker),
{
}

/// A reading equal to the reference power has exponent zero: a distance of one
/// meter.
pub proof fn lemma_reference_power_unit_distance()
    ensures
        path_loss(TX_POWER as int) == 0,
{
}

} // verus!
