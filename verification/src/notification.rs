//! The notification service: how often it wakes, and what it collects.

use vstd::prelude::*;

verus! {

/// The seconds between two rounds of the notification service.
pub const NOTIFICATION_TICK_INTERVAL_SECS: u64 = 300;

/// Collects the notifications that are due.  There are none yet.
pub fn get_new_notifications() {
}

} // verus!
