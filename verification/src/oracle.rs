use vstd::prelude::*;

use crate::error::ErrorCode;

verus! {

/// Accepts an oracle price only while it is recent enough.
///
/// A price published at `publish_time` is usable at `now` when no more
/// than `max_age` seconds have passed since its publication; an older
/// price is rejected as stale.  The price itself is scaled by
/// [`crate::state::SCALE`], like every fractional quantity of the ledger.
pub fn validate_price(price: u64, publish_time: u64, max_age: u64, now: u64) -> (r: Result<
    u64,
    ErrorCode,
>)
    ensures
        r is Ok <==> now <= publish_time + max_age,
        r matches Ok(v) ==> v == price,
        r == Err::<u64, ErrorCode>(ErrorCode::StalePrice) <==> now > publish_time + max_age,
{
    if now <= publish_time {
        return Ok(price);
    }
    if now - publish_time > max_age {
        return Err(ErrorCode::StalePrice);
    }
    Ok(price)
}

} // verus!
