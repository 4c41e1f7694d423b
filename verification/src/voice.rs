//! The late-night rule: who is disconnected when joining the late-night
//! voice channel.

use vstd::prelude::*;
use crate::reply::owned;

verus! {

/// The voice channel reserved for the late-night crew.
pub const LATE_NIGHT_CHANNEL: u64 = 807382613076738048;

/// The name of the role that may stay in the late-night channel.
pub fn late_night_role() -> (s: String)
    ensures
        s@ == "Late Night Crew"@,
{
    owned("Late Night Crew")
}

/// Whether a member whose voice state changed is disconnected: one without
/// the late-night role who is now in the late-night channel. A member
/// without the role must be in some channel.
pub fn late_night_disconnect(has_role: bool, channel_id: Option<u64>) -> (r: bool)
    requires
        has_role || channel_id.is_some(),
    ensures
        r == (!has_role && channel_id == Some(LATE_NIGHT_CHANNEL)),
{
    if has_role {
        return false;
    }
    match channel_id {
        Some(c) => c == LATE_NIGHT_CHANNEL,
        None => false,
    }
}

} // verus!
