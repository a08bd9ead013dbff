use vstd::prelude::*;
use crate::persistent::ChannelsConfig;

verus! {

/// One tick of the refresh loop's decision: publish the freshly loaded
/// snapshot when the load succeeded, keep the current one when it failed.
/// A transient store outage therefore never clears existing configuration:
/// stale-but-available wins over unavailable.
pub fn refresh_step(current: ChannelsConfig, loaded: Option<ChannelsConfig>) -> (r: ChannelsConfig)
    ensures
        match loaded {
            Some(fresh) => r == fresh,
            None => r == current,
        },
{
    match loaded {
        Some(fresh) => fresh,
        None => current,
    }
}

} // verus!
