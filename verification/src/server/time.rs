use vstd::prelude::*;

verus! {

/// How long a joined peer stays alive without a keep-alive, in milliseconds.
pub const EXPIRATION_TIME: u64 = 5000;

/// The period of the server's heartbeat, in milliseconds.
pub const HEARTBEAT_PERIOD: u64 = 3000;

/// The instant that lies `duration` milliseconds after `instant`.
pub fn next_instant(instant: u64, duration: u64) -> (r: u64)
    requires
        instant + duration <= u64::MAX,
    ensures
        r == instant + duration,
{
    instant + duration
}

} // verus!
