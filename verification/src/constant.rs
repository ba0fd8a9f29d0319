//! Wire-visible constants of the engine.

use vstd::prelude::*;

verus! {

/// A post offers this many one-hour betting slots.
pub const MAXIMUM_NUMBER_OF_SLOTS: u8 = 48;

/// Length of one betting slot, in seconds.
pub const DURATION_OF_EACH_SLOT_IN_SECONDS: u64 = 60 * 60;

/// Length of one betting slot, in milliseconds; the slot-closing timer for a
/// post fires this long after the post's first bet.
pub const DURATION_OF_EACH_SLOT_IN_MS: u64 = 60 * 60 * 1000;

/// The whole betting window of a post, in seconds.
pub const TOTAL_DURATION_OF_ALL_SLOTS_IN_SECONDS: u64 = 48 * 60 * 60;

/// Hard ceiling on the number of bets a single room may hold.
pub const MAX_BETS_PER_ROOM: usize = 100;

pub const MAX_USERS_IN_FOLLOWER_FOLLOWING_LIST: u64 = 10000;

/// Ceiling on how many items one paginated request may ask for.
pub const MAX_POSTS_IN_ONE_REQUEST: u64 = 100;

pub const HOME_FEED_DIFFERENCE_TO_INITIATE_SYNCHRONISATION: u64 = 100;

pub const HOT_OR_NOT_FEED_DIFFERENCE_TO_INITIATE_SYNCHRONISATION: u64 = 100;

/// Principals are carried through the engine as plain numeric identifiers;
/// this value stands for the anonymous principal.
pub const ANONYMOUS_PRINCIPAL_ID: u64 = 0;

} // verus!
