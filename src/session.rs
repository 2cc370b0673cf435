use vstd::prelude::*;

verus! {

/// How long a session lasts: one day, in seconds.
pub const SESSION_LIFETIME_SECS: u64 = 86400;

/// When a session opened at `now_secs` (seconds since the Unix epoch) expires.
pub fn calculate_expiration_time(now_secs: u64) -> (r: u64)
    requires
        now_secs <= u64::MAX - SESSION_LIFETIME_SECS,
    ensures
        r == now_secs + SESSION_LIFETIME_SECS,
{
    now_secs + SESSION_LIFETIME_SECS
}

} // verus!
