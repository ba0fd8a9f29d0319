//! The slot-closing scheduler: each post with an un-tabulated first bet is
//! registered once, queued in first-bet order, and at most one timer is
//! outstanding actor-wide.  The actor runtime performs the actual one-shot
//! timer; the engine only decides when one must be armed and processes the
//! expired one in-line.

use vstd::prelude::*;

use crate::constant::DURATION_OF_EACH_SLOT_IN_MS;
use crate::error::BetOnCurrentlyViewingPostError;
use crate::hot_or_not::BettingStatus;
use crate::stable_kv::timer_queue_contents;
use crate::state::{spec_timer_key, CanisterData, FirstBetDetail};
use crate::stable_kv::stable_kv_contents;
use crate::tabulation::{
    spec_fee_of_msgs, spec_saturating_credit, spec_slot_msgs_complete, spec_slot_msgs_sound,
    spec_slot_rooms_tabulated, tabulate_hot_or_not_outcome_for_post_slot, BetSettled,
};

verus! {

/// An instruction to the runtime: arm a one-shot timer that re-invokes
/// `maybe_enqueue_timer` after `delay_ms`.
#[derive(Clone, Copy, PartialEq, Eq, Structural, Debug)]
pub struct TimerAction {
    pub post_id: u64,
    pub delay_ms: u64,
}

/// The timer of `post_id` has logically expired: the post is registered and
/// a whole slot duration has passed since its first bet.
pub open spec fn spec_timer_expired(cd: CanisterData, post_id: u64, now_ms: u64) -> bool {
    &&& cd.first_bet_placed_at_hashmap@.contains_key(post_id)
    &&& now_ms >= cd.first_bet_placed_at_hashmap@[post_id].bet_placed_at_ms
        + DURATION_OF_EACH_SLOT_IN_MS
}

/// The delay an armed timer for `fb` should carry at `now_ms`: the time
/// left until one slot duration after the first bet, clamped to `u64`.
pub open spec fn spec_remaining_delay(fb: FirstBetDetail, now_ms: u64) -> u64 {
    let fire_at = fb.bet_placed_at_ms + DURATION_OF_EACH_SLOT_IN_MS;
    if fire_at <= now_ms {
        0u64
    } else if fire_at - now_ms > u64::MAX {
        u64::MAX
    } else {
        (fire_at - now_ms) as u64
    }
}

pub fn timer_expired(post_id: u64, canister_data: &CanisterData, now_ms: u64) -> (r: bool)
    requires
        canister_data.first_bet_placed_at_hashmap.wf(),
    ensures
        r == spec_timer_expired(*canister_data, post_id, now_ms),
{
    match canister_data.first_bet_placed_at_hashmap.get(post_id) {
        Some(fb) => fb.bet_placed_at_ms <= u64::MAX - DURATION_OF_EACH_SLOT_IN_MS && now_ms
            >= fb.bet_placed_at_ms + DURATION_OF_EACH_SLOT_IN_MS,
        None => false,
    }
}

/// Marks the queue's head post as owning the single outstanding timer and
/// says what delay the runtime must arm it with.  Does nothing when no post
/// awaits tabulation.
pub fn start_timer(canister_data: &mut CanisterData, now_ms: u64) -> (r: Option<TimerAction>)
    requires
        old(canister_data).spec_scheduler_in_sync(),
    ensures
        *final(canister_data) == (CanisterData {
            is_timer_running: final(canister_data).is_timer_running,
            ..*old(canister_data)
        }),
        match r {
            None => {
                &&& old(canister_data).first_bet_placed_at_hashmap.spec_len() == 0
                &&& final(canister_data).is_timer_running == old(canister_data).is_timer_running
            },
            Some(action) => {
                let fb = old(canister_data).first_bet_placed_at_hashmap@[action.post_id];
                &&& old(canister_data).first_bet_placed_at_hashmap@.contains_key(action.post_id)
                &&& forall|k2: u128|
                    timer_queue_contents(old(canister_data).bet_timer_posts).contains(k2)
                        ==> spec_timer_key(fb.bet_placed_at_ms, action.post_id) <= k2
                &&& action.delay_ms == spec_remaining_delay(fb, now_ms)
                &&& final(canister_data).is_timer_running == Some(action.post_id)
            },
        },
{
    let head = match canister_data.first_bet_placed_at_hashmap.first_entry() {
        Some(_) => true,
        None => false,
    };
    if !head {
        return None;
    }
    let first_key = match canister_data.bet_timer_posts.first_key() {
        Some(k) => k,
        None => unreached(),
    };
    let first_post_id = (first_key % 0x1_0000_0000_0000_0000u128) as u64;
    let fb = match canister_data.first_bet_placed_at_hashmap.get(first_post_id) {
        Some(fb) => *fb,
        None => unreached(),
    };
    proof {
        assert(first_key == spec_timer_key(fb.bet_placed_at_ms, first_post_id));
    }
    let delay_ms: u64 = if fb.bet_placed_at_ms <= u64::MAX - DURATION_OF_EACH_SLOT_IN_MS {
        let fire_at = fb.bet_placed_at_ms + DURATION_OF_EACH_SLOT_IN_MS;
        if fire_at <= now_ms {
            0
        } else {
            fire_at - now_ms
        }
    } else {
        // the firing instant itself lies beyond the clock's range
        let over = DURATION_OF_EACH_SLOT_IN_MS - (u64::MAX - fb.bet_placed_at_ms);
        let to_max = u64::MAX - now_ms;
        if to_max >= u64::MAX - over {
            u64::MAX
        } else {
            to_max + over
        }
    };
    canister_data.is_timer_running = Some(first_post_id);
    Some(TimerAction { post_id: first_post_id, delay_ms })
}

/// Handles the currently running timer: if it has expired, tabulates the
/// registered slot of its post, unregisters the post from both scheduler
/// structures and clears the running mark; otherwise leaves everything
/// alone.  Answers whether the timer was processed.
pub fn process_running_timer(canister_data: &mut CanisterData, post_id: u64, now_ms: u64) -> (r: (
    bool,
    Vec<BetSettled>,
))
    requires
        old(canister_data).wf_recoverable(),
    ensures
        final(canister_data).wf_recoverable(),
        old(canister_data).wf() ==> final(canister_data).wf(),
        final(canister_data).all_created_posts == old(canister_data).all_created_posts,
        final(canister_data).bet_details_map == old(canister_data).bet_details_map,
        final(canister_data).post_principal_map == old(canister_data).post_principal_map,
        final(canister_data).slot_details_map == old(canister_data).slot_details_map,
        final(canister_data).profile == old(canister_data).profile,
        final(canister_data).migration_info == old(canister_data).migration_info,
        final(canister_data).session_type == old(canister_data).session_type,
        if !spec_timer_expired(*old(canister_data), post_id, now_ms) {
            &&& r.0 == false
            &&& *final(canister_data) == *old(canister_data)
            &&& r.1@.len() == 0
        } else {
            let fb = old(canister_data).first_bet_placed_at_hashmap@[post_id];
            let slot = fb.ongoing_slot as u64;
            let rooms0 = stable_kv_contents(old(canister_data).room_details_map);
            let rooms1 = stable_kv_contents(final(canister_data).room_details_map);
            let bets0 = stable_kv_contents(old(canister_data).bet_details_map);
            &&& r.0 == true
            &&& final(canister_data).first_bet_placed_at_hashmap@ == old(
                canister_data,
            ).first_bet_placed_at_hashmap@.remove(post_id)
            &&& timer_queue_contents(final(canister_data).bet_timer_posts)
                == timer_queue_contents(old(canister_data).bet_timer_posts).remove(
                spec_timer_key(fb.bet_placed_at_ms, post_id),
            )
            &&& final(canister_data).is_timer_running is None
            &&& spec_slot_rooms_tabulated(rooms0, rooms1, bets0, post_id, slot)
            &&& spec_slot_msgs_sound(rooms0, rooms1, bets0, post_id, slot, r.1@)
            &&& spec_slot_msgs_complete(rooms0, bets0, post_id, slot, r.1@)
            &&& final(canister_data).my_token_balance.utility_token_balance
                == spec_saturating_credit(
                old(canister_data).my_token_balance.utility_token_balance,
                spec_fee_of_msgs(bets0, r.1@),
            )
        },
{
    if !timer_expired(post_id, canister_data, now_ms) {
        return (false, Vec::new());
    }
    let fb = match canister_data.first_bet_placed_at_hashmap.get(post_id) {
        Some(fb) => *fb,
        None => unreached(),
    };
    let msgs = tabulate_hot_or_not_outcome_for_post_slot(
        canister_data,
        post_id,
        fb.ongoing_slot as u64,
    );
    let ghost mid = *canister_data;
    canister_data.first_bet_placed_at_hashmap.remove(post_id);
    canister_data.bet_timer_posts.remove(timer_key_of(fb.bet_placed_at_ms, post_id));
    canister_data.is_timer_running = None;
    proof {
        let cd1 = *canister_data;
        assert(cd1.spec_scheduler_in_sync()) by {
            assert forall|p: u64|
                cd1.first_bet_placed_at_hashmap@.contains_key(p) implies timer_queue_contents(
                cd1.bet_timer_posts,
            ).contains(
                spec_timer_key((#[trigger] cd1.first_bet_placed_at_hashmap@[p]).bet_placed_at_ms, p),
            ) by {
                assert(p != post_id);
                lemma_timer_key_parts(cd1.first_bet_placed_at_hashmap@[p].bet_placed_at_ms, p);
                lemma_timer_key_parts(fb.bet_placed_at_ms, post_id);
            }
            assert forall|k: u128|
                #[trigger] timer_queue_contents(cd1.bet_timer_posts).contains(k) implies {
                let p = (k % 0x1_0000_0000_0000_0000) as u64;
                &&& cd1.first_bet_placed_at_hashmap@.contains_key(p)
                &&& k == spec_timer_key(cd1.first_bet_placed_at_hashmap@[p].bet_placed_at_ms, p)
            } by {
                let p = (k % 0x1_0000_0000_0000_0000) as u64;
                lemma_timer_key_parts(fb.bet_placed_at_ms, post_id);
                if p == post_id {
                    assert(k == spec_timer_key(fb.bet_placed_at_ms, post_id));
                    assert(false);
                }
            }
        }
    }
    (true, msgs)
}

/// Computes the queue key of a registration (the timestamp in the upper,
/// the post id in the lower 64 bits).
fn timer_key_of(ts_ms: u64, post: u64) -> (r: u128)
    ensures
        r == spec_timer_key(ts_ms, post),
{
    (ts_ms as u128) * 0x1_0000_0000_0000_0000u128 + (post as u128)
}

/// A queue key decomposes back into its timestamp and post id.
proof fn lemma_timer_key_parts(ts_ms: u64, post: u64)
    ensures
        spec_timer_key(ts_ms, post) % 0x1_0000_0000_0000_0000 == post,
        spec_timer_key(ts_ms, post) / 0x1_0000_0000_0000_0000 == ts_ms,
{
    let k = (ts_ms as int) * 0x1_0000_0000_0000_0000 + (post as int);
    vstd::arithmetic::div_mod::lemma_fundamental_div_mod_converse(
        k,
        0x1_0000_0000_0000_0000,
        ts_ms as int,
        post as int,
    );
}

/// The scheduler's entry point, re-invoked on each accepted first bet and
/// by each fired timer: processes the running timer when it has expired,
/// then arms a timer for the queue's head if none is outstanding.
pub fn maybe_enqueue_timer(canister_data: &mut CanisterData, now_ms: u64) -> (r: (
    Option<TimerAction>,
    Vec<BetSettled>,
))
    requires
        old(canister_data).wf_recoverable(),
    ensures
        final(canister_data).wf_recoverable(),
        old(canister_data).wf() ==> final(canister_data).wf(),
        final(canister_data).all_created_posts == old(canister_data).all_created_posts,
        final(canister_data).bet_details_map == old(canister_data).bet_details_map,
        final(canister_data).post_principal_map == old(canister_data).post_principal_map,
        final(canister_data).slot_details_map == old(canister_data).slot_details_map,
        final(canister_data).profile == old(canister_data).profile,
        final(canister_data).migration_info == old(canister_data).migration_info,
        final(canister_data).session_type == old(canister_data).session_type,
        match r.0 {
            Some(action) => {
                let fb = final(canister_data).first_bet_placed_at_hashmap@[action.post_id];
                &&& final(canister_data).first_bet_placed_at_hashmap@.contains_key(action.post_id)
                &&& action.delay_ms == spec_remaining_delay(fb, now_ms)
                &&& final(canister_data).is_timer_running == Some(action.post_id)
            },
            None => true,
        },
        match old(canister_data).is_timer_running {
            Some(p) => if !spec_timer_expired(*old(canister_data), p, now_ms) {
                *final(canister_data) == *old(canister_data) && r.0 is None && r.1@.len() == 0
            } else {
                let fb = old(canister_data).first_bet_placed_at_hashmap@[p];
                let slot = fb.ongoing_slot as u64;
                let rooms0 = stable_kv_contents(old(canister_data).room_details_map);
                let rooms1 = stable_kv_contents(final(canister_data).room_details_map);
                let bets0 = stable_kv_contents(old(canister_data).bet_details_map);
                &&& final(canister_data).first_bet_placed_at_hashmap@ == old(
                    canister_data,
                ).first_bet_placed_at_hashmap@.remove(p)
                &&& timer_queue_contents(final(canister_data).bet_timer_posts)
                    == timer_queue_contents(old(canister_data).bet_timer_posts).remove(
                    spec_timer_key(fb.bet_placed_at_ms, p),
                )
                &&& spec_slot_rooms_tabulated(rooms0, rooms1, bets0, p, slot)
                &&& spec_slot_msgs_sound(rooms0, rooms1, bets0, p, slot, r.1@)
                &&& spec_slot_msgs_complete(rooms0, bets0, p, slot, r.1@)
                &&& final(canister_data).my_token_balance.utility_token_balance
                    == spec_saturating_credit(
                    old(canister_data).my_token_balance.utility_token_balance,
                    spec_fee_of_msgs(bets0, r.1@),
                )
            },
            None => {
                &&& final(canister_data).first_bet_placed_at_hashmap == old(
                    canister_data,
                ).first_bet_placed_at_hashmap
                &&& final(canister_data).bet_timer_posts == old(canister_data).bet_timer_posts
                &&& final(canister_data).room_details_map == old(canister_data).room_details_map
                &&& final(canister_data).my_token_balance == old(canister_data).my_token_balance
                &&& r.1@.len() == 0
                &&& (old(canister_data).first_bet_placed_at_hashmap.spec_len() > 0 ==> r.0
                    is Some)
            },
        },
{
    let mut msgs: Vec<BetSettled> = Vec::new();
    let should_start_timer: bool;
    match canister_data.is_timer_running {
        Some(post_id) => {
            let (processed, timer_msgs) = process_running_timer(canister_data, post_id, now_ms);
            msgs = timer_msgs;
            should_start_timer = processed;
        },
        None => {
            should_start_timer = !canister_data.first_bet_placed_at_hashmap.is_empty();
        },
    }
    if should_start_timer {
        let action = start_timer(canister_data, now_ms);
        (action, msgs)
    } else {
        (None, msgs)
    }
}

/// Registers a post with the scheduler the first time a bet lands on it:
/// records when and into which slot the first bet fell, queues the post for
/// tabulation, and lets the scheduler decide whether a timer must be armed.
/// Later bets, rejected bets and closed posts change nothing.
pub fn maybe_start_timer_based_on_bet_result(
    canister_data: &mut CanisterData,
    current_time_ms: u64,
    post_id: u64,
    bet_result: &Result<BettingStatus, BetOnCurrentlyViewingPostError>,
) -> (r: (Option<TimerAction>, Vec<BetSettled>))
    requires
        old(canister_data).wf_recoverable(),
    ensures
        final(canister_data).wf_recoverable(),
        old(canister_data).wf() ==> final(canister_data).wf(),
        final(canister_data).all_created_posts == old(canister_data).all_created_posts,
        final(canister_data).bet_details_map == old(canister_data).bet_details_map,
        final(canister_data).post_principal_map == old(canister_data).post_principal_map,
        final(canister_data).slot_details_map == old(canister_data).slot_details_map,
        final(canister_data).profile == old(canister_data).profile,
        final(canister_data).migration_info == old(canister_data).migration_info,
        final(canister_data).session_type == old(canister_data).session_type,
        match *bet_result {
            Ok(BettingStatus::BettingOpen { ongoing_slot, .. }) => {
                if old(canister_data).first_bet_placed_at_hashmap@.contains_key(post_id) {
                    *final(canister_data) == *old(canister_data) && r.0 is None && r.1@.len() == 0
                } else {
                    let registered = old(canister_data).first_bet_placed_at_hashmap@.insert(
                        post_id,
                        FirstBetDetail { bet_placed_at_ms: current_time_ms, ongoing_slot },
                    );
                    let queued = timer_queue_contents(old(canister_data).bet_timer_posts).insert(
                        spec_timer_key(current_time_ms, post_id),
                    );
                    // the first bet's registration always survives the call
                    &&& final(canister_data).first_bet_placed_at_hashmap@.contains_key(post_id)
                    &&& final(canister_data).first_bet_placed_at_hashmap@[post_id]
                        == (FirstBetDetail { bet_placed_at_ms: current_time_ms, ongoing_slot })
                    &&& timer_queue_contents(final(canister_data).bet_timer_posts).contains(
                        spec_timer_key(current_time_ms, post_id),
                    )
                    &&& match old(canister_data).is_timer_running {
                        Some(p) => if p == post_id || !spec_timer_expired(
                            *old(canister_data),
                            p,
                            current_time_ms,
                        ) {
                            &&& final(canister_data).first_bet_placed_at_hashmap@ == registered
                            &&& timer_queue_contents(final(canister_data).bet_timer_posts)
                                == queued
                            &&& final(canister_data).is_timer_running == old(
                                canister_data,
                            ).is_timer_running
                            &&& final(canister_data).room_details_map == old(
                                canister_data,
                            ).room_details_map
                            &&& final(canister_data).my_token_balance == old(
                                canister_data,
                            ).my_token_balance
                            &&& r.0 is None
                            &&& r.1@.len() == 0
                        } else {
                            let fb = old(canister_data).first_bet_placed_at_hashmap@[p];
                            let slot = fb.ongoing_slot as u64;
                            let rooms0 = stable_kv_contents(old(canister_data).room_details_map);
                            let rooms1 = stable_kv_contents(
                                final(canister_data).room_details_map,
                            );
                            let bets0 = stable_kv_contents(old(canister_data).bet_details_map);
                            &&& final(canister_data).first_bet_placed_at_hashmap@
                                == registered.remove(p)
                            &&& timer_queue_contents(final(canister_data).bet_timer_posts)
                                == queued.remove(spec_timer_key(fb.bet_placed_at_ms, p))
                            &&& spec_slot_rooms_tabulated(rooms0, rooms1, bets0, p, slot)
                            &&& spec_slot_msgs_sound(rooms0, rooms1, bets0, p, slot, r.1@)
                            &&& spec_slot_msgs_complete(rooms0, bets0, p, slot, r.1@)
                            &&& final(canister_data).my_token_balance.utility_token_balance
                                == spec_saturating_credit(
                                old(canister_data).my_token_balance.utility_token_balance,
                                spec_fee_of_msgs(bets0, r.1@),
                            )
                        },
                        None => {
                            &&& final(canister_data).first_bet_placed_at_hashmap@ == registered
                            &&& timer_queue_contents(final(canister_data).bet_timer_posts)
                                == queued
                            &&& final(canister_data).room_details_map == old(
                                canister_data,
                            ).room_details_map
                            &&& final(canister_data).my_token_balance == old(
                                canister_data,
                            ).my_token_balance
                            &&& r.0 is Some
                            &&& r.1@.len() == 0
                        },
                    }
                }
            },
            _ => *final(canister_data) == *old(canister_data) && r.0 is None && r.1@.len() == 0,
        },
{
    match bet_result {
        Ok(BettingStatus::BettingOpen { ongoing_slot, .. }) => {
            if !canister_data.first_bet_placed_at_hashmap.contains_key(post_id) {
                canister_data.first_bet_placed_at_hashmap.insert(
                    post_id,
                    FirstBetDetail {
                        bet_placed_at_ms: current_time_ms,
                        ongoing_slot: *ongoing_slot,
                    },
                );
                canister_data.bet_timer_posts.insert(
                    timer_key_of(current_time_ms, post_id),
                );
                proof {
                    let cd1 = *canister_data;
                    assert(cd1.spec_scheduler_in_sync()) by {
                        assert forall|k: u128|
                            #[trigger] timer_queue_contents(cd1.bet_timer_posts).contains(
                                k,
                            ) implies {
                            let p = (k % 0x1_0000_0000_0000_0000) as u64;
                            &&& cd1.first_bet_placed_at_hashmap@.contains_key(p)
                            &&& k == spec_timer_key(
                                cd1.first_bet_placed_at_hashmap@[p].bet_placed_at_ms,
                                p,
                            )
                        } by {
                            lemma_timer_key_parts(current_time_ms, post_id);
                            if k != spec_timer_key(current_time_ms, post_id) {
                                let p = (k % 0x1_0000_0000_0000_0000) as u64;
                                assert(timer_queue_contents(
                                    old(canister_data).bet_timer_posts,
                                ).contains(k));
                                assert(p != post_id);
                            }
                        }
                    }
                    assert(canister_data.wf_recoverable());
                    assert(old(canister_data).wf() ==> canister_data.wf());
                }
                let ghost mid = *canister_data;
                let r = maybe_enqueue_timer(canister_data, current_time_ms);
                proof {
                    let detail = FirstBetDetail {
                        bet_placed_at_ms: current_time_ms,
                        ongoing_slot: *ongoing_slot,
                    };
                    let registered = old(canister_data).first_bet_placed_at_hashmap@.insert(
                        post_id,
                        detail,
                    );
                    assert(mid.first_bet_placed_at_hashmap@ == registered);
                    match old(canister_data).is_timer_running {
                        Some(p) => {
                            if p != post_id && spec_timer_expired(
                                *old(canister_data),
                                p,
                                current_time_ms,
                            ) {
                                // the running post is a different, already
                                // registered one, so the fresh registration
                                // survives its processing
                                assert(spec_timer_expired(mid, p, current_time_ms));
                                assert(mid.first_bet_placed_at_hashmap@[p] == old(
                                    canister_data,
                                ).first_bet_placed_at_hashmap@[p]);
                                lemma_timer_key_parts(current_time_ms, post_id);
                                lemma_timer_key_parts(
                                    mid.first_bet_placed_at_hashmap@[p].bet_placed_at_ms,
                                    p,
                                );
                            } else {
                                if p == post_id {
                                    assert(!spec_timer_expired(mid, p, current_time_ms));
                                } else {
                                    assert(!spec_timer_expired(mid, p, current_time_ms));
                                }
                            }
                        },
                        None => {},
                    }
                }
                return r;
            }
            (None, Vec::new())
        },
        _ => (None, Vec::new()),
    }
}

} // verus!
