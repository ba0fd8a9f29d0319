//! Accepting a bet into the state: the nested tree and every side index are
//! updated in the same step, so the mirror invariant survives each call.

use vstd::prelude::*;

use crate::constant::{ANONYMOUS_PRINCIPAL_ID, DURATION_OF_EACH_SLOT_IN_SECONDS, MAX_BETS_PER_ROOM};
use crate::error::BetOnCurrentlyViewingPostError;
use crate::hot_or_not::{
    lemma_bets_after_placement, spec_bet_in, spec_bet_placed, spec_slot_room_bound,
    spec_status_after_bet, spec_target_room, BetDetails, BetDirection, BettingStatus,
};
use crate::stable_kv::{stable_kv_contents, Quad};
use crate::state::{
    spec_bet_key, spec_direction_code, spec_post_principal_key, spec_room_key, spec_slot_key,
    spec_tree_bet_details_of, spec_tree_bet_of, CanisterData, PlaceBetArg,
};

verus! {

/// The room side entry after a bet of `amount` in direction `dir` joins it.
pub open spec fn spec_room_quad_after(old_q: Option<Quad>, amount: u64, dir: BetDirection) -> Quad {
    let q = match old_q {
        Some(q) => q,
        None => (0u64, 0u64, 0u64, 0u64),
    };
    (
        (q.0 + amount) as u64,
        (q.1 + if dir is Hot {
            1int
        } else {
            0int
        }) as u64,
        (q.2 + if dir is Not {
            1int
        } else {
            0int
        }) as u64,
        q.3,
    )
}

/// Accepts one bet: rejects it when betting is closed or the principal
/// already participated; otherwise records it in the post's tree and in all
/// four side indices, and answers with the updated betting status.
pub fn receive_bet_from_bet_makers_canister_impl(
    canister_data: &mut CanisterData,
    bet_maker_principal_id: u64,
    bet_maker_canister_id: u64,
    place_bet_arg: PlaceBetArg,
    current_time: u64,
) -> (r: Result<BettingStatus, BetOnCurrentlyViewingPostError>)
    requires
        old(canister_data).wf(),
        old(canister_data).all_created_posts@.contains_key(place_bet_arg.post_id),
        current_time >= old(canister_data).all_created_posts@[place_bet_arg.post_id].created_at,
        old(canister_data).all_created_posts@[place_bet_arg.post_id].hot_or_not_details is Some,
        ({
            let h0 = old(
                canister_data,
            ).all_created_posts@[place_bet_arg.post_id].hot_or_not_details->Some_0;
            &&& h0.aggregate_stats.total_amount_bet + place_bet_arg.bet_amount <= u64::MAX
            &&& h0.aggregate_stats.total_number_of_hot_bets + 1 <= u64::MAX
            &&& h0.aggregate_stats.total_number_of_not_bets + 1 <= u64::MAX
        }),
    ensures
        final(canister_data).wf(),
        ({
            let p0 = old(canister_data).all_created_posts@[place_bet_arg.post_id];
            if !p0.spec_betting_open_at(current_time) {
                &&& r == Err::<BettingStatus, BetOnCurrentlyViewingPostError>(
                    BetOnCurrentlyViewingPostError::BettingClosed,
                )
                &&& *final(canister_data) == *old(canister_data)
            } else if bet_maker_principal_id == ANONYMOUS_PRINCIPAL_ID || p0.spec_has_bet(
                bet_maker_principal_id,
            ) {
                &&& r == Err::<BettingStatus, BetOnCurrentlyViewingPostError>(
                    BetOnCurrentlyViewingPostError::UserAlreadyParticipatedInThisPost,
                )
                &&& *final(canister_data) == *old(canister_data)
            } else {
                let p1 = final(canister_data).all_created_posts@[place_bet_arg.post_id];
                let s = p0.spec_ongoing_slot_at(current_time) as u64;
                let target = spec_target_room(p0, current_time);
                &&& spec_bet_placed(
                    p0,
                    p1,
                    bet_maker_principal_id,
                    place_bet_arg.bet_amount,
                    place_bet_arg.bet_direction,
                    current_time,
                )
                &&& final(canister_data).all_created_posts@ == old(
                    canister_data,
                ).all_created_posts@.insert(place_bet_arg.post_id, p1)
                &&& stable_kv_contents(final(canister_data).bet_details_map)
                    == stable_kv_contents(old(canister_data).bet_details_map).insert(
                    spec_bet_key(place_bet_arg.post_id, s, target, bet_maker_principal_id),
                    (
                        place_bet_arg.bet_amount,
                        spec_direction_code(place_bet_arg.bet_direction),
                        bet_maker_canister_id,
                        0u64,
                    ),
                )
                &&& stable_kv_contents(final(canister_data).room_details_map)
                    == stable_kv_contents(old(canister_data).room_details_map).insert(
                    spec_room_key(place_bet_arg.post_id, s, target),
                    spec_room_quad_after(
                        if stable_kv_contents(old(canister_data).room_details_map).contains_key(
                            spec_room_key(place_bet_arg.post_id, s, target),
                        ) {
                            Some(
                                stable_kv_contents(old(canister_data).room_details_map)[
                                    spec_room_key(place_bet_arg.post_id, s, target)],
                            )
                        } else {
                            None
                        },
                        place_bet_arg.bet_amount,
                        place_bet_arg.bet_direction,
                    ),
                )
                &&& stable_kv_contents(final(canister_data).post_principal_map)
                    == stable_kv_contents(old(canister_data).post_principal_map).insert(
                    spec_post_principal_key(place_bet_arg.post_id, bet_maker_principal_id),
                    (0u64, 0u64, 0u64, 0u64),
                )
                &&& stable_kv_contents(final(canister_data).slot_details_map)
                    == stable_kv_contents(old(canister_data).slot_details_map).insert(
                    spec_slot_key(place_bet_arg.post_id, s),
                    (0u64, 0u64, 0u64, 0u64),
                )
                &&& final(canister_data).first_bet_placed_at_hashmap == old(
                    canister_data,
                ).first_bet_placed_at_hashmap
                &&& final(canister_data).bet_timer_posts == old(canister_data).bet_timer_posts
                &&& final(canister_data).is_timer_running == old(canister_data).is_timer_running
                &&& final(canister_data).profile == old(canister_data).profile
                &&& final(canister_data).my_token_balance == old(canister_data).my_token_balance
                &&& final(canister_data).migration_info == old(canister_data).migration_info
                &&& final(canister_data).session_type == old(canister_data).session_type
                &&& r == Ok::<BettingStatus, BetOnCurrentlyViewingPostError>(
                    spec_status_after_bet(p1),
                )
            }
        }),
{
    let post_id = place_bet_arg.post_id;
    let bet_amount = place_bet_arg.bet_amount;
    let bet_direction = place_bet_arg.bet_direction;
    let ghost cd0 = *canister_data;
    let ghost p0 = cd0.all_created_posts@[post_id];
    let (ongoing_room, number_of_participants) = {
        let post_ref = match canister_data.all_created_posts.get(post_id) {
            Some(p) => p,
            None => unreached(),
        };
        let status = post_ref.get_hot_or_not_betting_status_for_this_post(
            current_time,
            bet_maker_principal_id,
        );
        match status {
            BettingStatus::BettingClosed => {
                return Err(BetOnCurrentlyViewingPostError::BettingClosed);
            },
            BettingStatus::BettingOpen {
                ongoing_room,
                number_of_participants,
                has_this_user_participated_in_this_post,
                ..
            } => {
                let already = match has_this_user_participated_in_this_post {
                    None => true,
                    Some(b) => b,
                };
                if already {
                    return Err(BetOnCurrentlyViewingPostError::UserAlreadyParticipatedInThisPost);
                }
                (ongoing_room, number_of_participants)
            },
        }
    };
    let slot_u64 = (current_time - {
        let post_ref = match canister_data.all_created_posts.get(post_id) {
            Some(p) => p,
            None => unreached(),
        };
        post_ref.created_at
    }) / 1000 / DURATION_OF_EACH_SLOT_IN_SECONDS + 1;
    proof {
        assert(slot_u64 == p0.spec_ongoing_slot_at(current_time));
        assert(number_of_participants == p0.spec_active_room_participants_at(current_time) as u8);
        assert(ongoing_room == p0.spec_active_room_at(current_time));
        assert(p0.spec_active_room_participants_at(current_time) <= MAX_BETS_PER_ROOM) by {
            let h0 = p0.hot_or_not_details->Some_0;
            if h0.slot_history@.contains_key(slot_u64) {
                let rooms = h0.slot_history@[slot_u64].room_details;
                if rooms.spec_len() > 0 {
                    rooms.lemma_key_bounds();
                    assert(crate::hot_or_not::spec_room_wf(rooms@[rooms.spec_last_key()]));
                }
            }
        }
    }
    let target: u64;
    if (number_of_participants as usize) < MAX_BETS_PER_ROOM {
        target = ongoing_room;
    } else {
        proof {
            let h0 = p0.hot_or_not_details->Some_0;
            assert(h0.slot_history@.contains_key(slot_u64));
            let rooms = h0.slot_history@[slot_u64].room_details;
            rooms.lemma_key_bounds();
            assert(spec_slot_room_bound(h0.slot_history@[slot_u64], h0));
            assert(ongoing_room <= rooms.spec_len());
            assert(ongoing_room < u64::MAX);
        }
        target = ongoing_room + 1;
    }
    let mut post = match canister_data.all_created_posts.remove(post_id) {
        Some(p) => p,
        None => unreached(),
    };
    let place_result = post.place_hot_or_not_bet(
        bet_maker_principal_id,
        bet_amount,
        bet_direction,
        current_time,
    );
    let status2 = match place_result {
        Ok(status2) => status2,
        Err(_) => unreached(),
    };
    let ghost p1 = post;
    canister_data.all_created_posts.insert(post_id, post);
    proof {
        assert(canister_data.all_created_posts@ =~= cd0.all_created_posts@.insert(post_id, p1));
        assert(target == spec_target_room(p0, current_time));
        lemma_bets_after_placement(
            p0,
            p1,
            bet_maker_principal_id,
            bet_amount,
            bet_direction,
            current_time,
        );
    }
    // update the side indices in the same step
    let old_room_quad = canister_data.room_details_map.get((post_id, slot_u64, target, 0));
    let new_room_quad: (u64, u64, u64, u64);
    proof {
        if stable_kv_contents(cd0.room_details_map).contains_key(
            spec_room_key(post_id, slot_u64, target),
        ) {
            let h0 = p0.hot_or_not_details->Some_0;
            assert(old_room_quad is Some);
        }
    }
    match old_room_quad {
        Some(q) => {
            proof {
                let h0 = p0.hot_or_not_details->Some_0;
                assert(q.0 <= h0.aggregate_stats.total_amount_bet);
                assert(q.1 <= h0.aggregate_stats.total_number_of_hot_bets);
                assert(q.2 <= h0.aggregate_stats.total_number_of_not_bets);
            }
            match bet_direction {
                BetDirection::Hot => {
                    new_room_quad = (q.0 + bet_amount, q.1 + 1, q.2, q.3);
                },
                BetDirection::Not => {
                    new_room_quad = (q.0 + bet_amount, q.1, q.2 + 1, q.3);
                },
            }
        },
        None => {
            match bet_direction {
                BetDirection::Hot => {
                    new_room_quad = (bet_amount, 1, 0, 0);
                },
                BetDirection::Not => {
                    new_room_quad = (bet_amount, 0, 1, 0);
                },
            }
        },
    }
    canister_data.room_details_map.insert((post_id, slot_u64, target, 0), new_room_quad);
    let dir_code: u64 = match bet_direction {
        BetDirection::Hot => 0,
        BetDirection::Not => 1,
    };
    canister_data.bet_details_map.insert(
        (post_id, slot_u64, target, bet_maker_principal_id),
        (bet_amount, dir_code, bet_maker_canister_id, 0),
    );
    canister_data.post_principal_map.insert(
        (post_id, bet_maker_principal_id, 0, 0),
        (0, 0, 0, 0),
    );
    canister_data.slot_details_map.insert((post_id, slot_u64, 0, 0), (0, 0, 0, 0));
    proof {
        lemma_bet_recorded_wf(
            cd0,
            *canister_data,
            post_id,
            bet_maker_principal_id,
            bet_maker_canister_id,
            bet_amount,
            bet_direction,
            current_time,
        );
    }
    Ok(status2)
}

/// Recording a bet in the tree and all four side indices in one step keeps
/// the state's mirror invariant.
proof fn lemma_bet_recorded_wf(
    cd0: CanisterData,
    cd1: CanisterData,
    post_id: u64,
    pr: u64,
    canister_id: u64,
    amount: u64,
    dir: BetDirection,
    now: u64,
)
    requires
        cd0.wf(),
        cd0.all_created_posts@.contains_key(post_id),
        now >= cd0.all_created_posts@[post_id].created_at,
        cd0.all_created_posts@[post_id].hot_or_not_details is Some,
        cd0.all_created_posts@[post_id].spec_betting_open_at(now),
        pr != ANONYMOUS_PRINCIPAL_ID,
        !cd0.all_created_posts@[post_id].spec_has_bet(pr),
        cd1.all_created_posts.wf(),
        cd1.all_created_posts@.contains_key(post_id),
        cd1.all_created_posts@[post_id].wf(),
        spec_bet_placed(
            cd0.all_created_posts@[post_id],
            cd1.all_created_posts@[post_id],
            pr,
            amount,
            dir,
            now,
        ),
        cd1.all_created_posts@ == cd0.all_created_posts@.insert(
            post_id,
            cd1.all_created_posts@[post_id],
        ),
        ({
            let p0 = cd0.all_created_posts@[post_id];
            let s = p0.spec_ongoing_slot_at(now) as u64;
            let target = spec_target_room(p0, now);
            &&& stable_kv_contents(cd1.bet_details_map) == stable_kv_contents(
                cd0.bet_details_map,
            ).insert(
                spec_bet_key(post_id, s, target, pr),
                (amount, spec_direction_code(dir), canister_id, 0u64),
            )
            &&& stable_kv_contents(cd1.room_details_map) == stable_kv_contents(
                cd0.room_details_map,
            ).insert(
                spec_room_key(post_id, s, target),
                spec_room_quad_after(
                    if stable_kv_contents(cd0.room_details_map).contains_key(
                        spec_room_key(post_id, s, target),
                    ) {
                        Some(stable_kv_contents(cd0.room_details_map)[
                            spec_room_key(post_id, s, target)])
                    } else {
                        None
                    },
                    amount,
                    dir,
                ),
            )
            &&& stable_kv_contents(cd1.post_principal_map) == stable_kv_contents(
                cd0.post_principal_map,
            ).insert(spec_post_principal_key(post_id, pr), (0u64, 0u64, 0u64, 0u64))
            &&& stable_kv_contents(cd1.slot_details_map) == stable_kv_contents(
                cd0.slot_details_map,
            ).insert(spec_slot_key(post_id, s), (0u64, 0u64, 0u64, 0u64))
        }),
        cd1.first_bet_placed_at_hashmap == cd0.first_bet_placed_at_hashmap,
        cd1.bet_timer_posts == cd0.bet_timer_posts,
        cd1.my_token_balance == cd0.my_token_balance,
        ({
            let h0 = cd0.all_created_posts@[post_id].hot_or_not_details->Some_0;
            &&& h0.aggregate_stats.total_amount_bet + amount <= u64::MAX
            &&& h0.aggregate_stats.total_number_of_hot_bets + 1 <= u64::MAX
            &&& h0.aggregate_stats.total_number_of_not_bets + 1 <= u64::MAX
        }),
    ensures
        cd1.wf(),
{
    let p0 = cd0.all_created_posts@[post_id];
    let p1 = cd1.all_created_posts@[post_id];
    let h0 = p0.hot_or_not_details->Some_0;
    let h1 = p1.hot_or_not_details->Some_0;
    let s = p0.spec_ongoing_slot_at(now) as u64;
    let target = spec_target_room(p0, now);
    lemma_bets_after_placement(p0, p1, pr, amount, dir, now);
    // how the tree's bets changed, state-wide
    assert forall|gp: u64, gs: u64, gr: u64, gpr: u64|
        #[trigger] spec_tree_bet_of(cd1.all_created_posts, gp, gs, gr, gpr) implies ((gp == post_id && gs == s && gr
        == target && gpr == pr) || (spec_tree_bet_of(cd0.all_created_posts, gp, gs, gr, gpr)
        && spec_tree_bet_details_of(cd1.all_created_posts, gp, gs, gr, gpr) == spec_tree_bet_details_of(cd0.all_created_posts, 
        gp,
        gs,
        gr,
        gpr,
    ))) by {
        if gp != post_id {
            assert(cd1.all_created_posts@[gp] == cd0.all_created_posts@[gp]);
        } else {
            assert(spec_bet_in(h1, gs, gr, gpr));
        }
    }
    assert forall|gp: u64, gs: u64, gr: u64, gpr: u64|
        #[trigger] spec_tree_bet_of(cd0.all_created_posts, gp, gs, gr, gpr) implies spec_tree_bet_of(cd1.all_created_posts, gp, gs, gr, gpr)
        && spec_tree_bet_details_of(cd1.all_created_posts, gp, gs, gr, gpr) == spec_tree_bet_details_of(cd0.all_created_posts, 
        gp,
        gs,
        gr,
        gpr,
    ) by {
        if gp != post_id {
            assert(cd1.all_created_posts@[gp] == cd0.all_created_posts@[gp]);
        } else {
            assert(spec_bet_in(h0, gs, gr, gpr));
            assert(spec_bet_in(h1, gs, gr, gpr));
        }
    }
    assert(spec_tree_bet_of(cd1.all_created_posts, post_id, s, target, pr));
    assert(spec_tree_bet_details_of(cd1.all_created_posts, post_id, s, target, pr) == (BetDetails {
        amount,
        bet_direction: dir,
    }));
    assert(!spec_tree_bet_of(cd0.all_created_posts, post_id, s, target, pr));
    assert(cd1.spec_posts_wf());
    assert(cd1.spec_scheduler_in_sync());
    assert(cd1.spec_side_covers_tree());
    assert(cd1.spec_tree_covers_side()) by {
        let bets1 = stable_kv_contents(cd1.bet_details_map);
        let rooms1 = stable_kv_contents(cd1.room_details_map);
        assert forall|k: Quad| #[trigger] bets1.contains_key(k) implies spec_tree_bet_of(cd1.all_created_posts, 
            k.0,
            k.1,
            k.2,
            k.3,
        ) && bets1[k].0 == spec_tree_bet_details_of(cd1.all_created_posts, k.0, k.1, k.2, k.3).amount && bets1[k].1
            == spec_direction_code(spec_tree_bet_details_of(cd1.all_created_posts, k.0, k.1, k.2, k.3).bet_direction) by {
            if k != spec_bet_key(post_id, s, target, pr) {
                assert(stable_kv_contents(cd0.bet_details_map).contains_key(k));
                assert(spec_tree_bet_of(cd0.all_created_posts, k.0, k.1, k.2, k.3));
            }
        }
        assert forall|k: Quad| #[trigger] rooms1.contains_key(k) implies k.3 == 0 && (exists|
            gpr: u64,
        | spec_tree_bet_of(cd1.all_created_posts, k.0, k.1, k.2, gpr)) && ({
            let h = cd1.all_created_posts@[k.0].hot_or_not_details->Some_0;
            let v = rooms1[k];
            &&& v.0 <= h.aggregate_stats.total_amount_bet
            &&& v.1 <= h.aggregate_stats.total_number_of_hot_bets
            &&& v.2 <= h.aggregate_stats.total_number_of_not_bets
        }) by {
            if k != spec_room_key(post_id, s, target) {
                assert(stable_kv_contents(cd0.room_details_map).contains_key(k));
                let w = choose|gpr: u64| #[trigger] spec_tree_bet_of(cd0.all_created_posts, k.0, k.1, k.2, gpr);
                assert(spec_tree_bet_of(cd1.all_created_posts, k.0, k.1, k.2, w));
                if k.0 == post_id {
                    assert(h1.aggregate_stats.total_amount_bet
                        >= h0.aggregate_stats.total_amount_bet);
                }
            } else {
                assert(k.0 == post_id && k.1 == s && k.2 == target);
                assert(spec_tree_bet_of(cd1.all_created_posts, k.0, k.1, k.2, pr));
            }
        }
        assert forall|k: Quad|
            #[trigger] stable_kv_contents(cd1.post_principal_map).contains_key(k) implies k.2 == 0
            && k.3 == 0 && (exists|gs: u64, gr: u64| spec_tree_bet_of(cd1.all_created_posts, k.0, gs, gr, k.1)) by {
            if k != spec_post_principal_key(post_id, pr) {
                assert(stable_kv_contents(cd0.post_principal_map).contains_key(k));
                let (ws, wr) = choose|gs: u64, gr: u64|
                    #[trigger] spec_tree_bet_of(cd0.all_created_posts, k.0, gs, gr, k.1);
                assert(spec_tree_bet_of(cd1.all_created_posts, k.0, ws, wr, k.1));
            } else {
                assert(k.0 == post_id && k.1 == pr);
                assert(spec_tree_bet_of(cd1.all_created_posts, k.0, s, target, k.1));
            }
        }
        assert forall|k: Quad|
            #[trigger] stable_kv_contents(cd1.slot_details_map).contains_key(k) implies k.2 == 0
            && k.3 == 0 && (exists|gr: u64, gpr: u64| spec_tree_bet_of(cd1.all_created_posts, k.0, k.1, gr, gpr)) by {
            if k != spec_slot_key(post_id, s) {
                assert(stable_kv_contents(cd0.slot_details_map).contains_key(k));
                let (wr, wpr) = choose|gr: u64, gpr: u64|
                    #[trigger] spec_tree_bet_of(cd0.all_created_posts, k.0, k.1, gr, gpr);
                assert(spec_tree_bet_of(cd1.all_created_posts, k.0, k.1, wr, wpr));
            } else {
                assert(k.0 == post_id && k.1 == s);
                assert(spec_tree_bet_of(cd1.all_created_posts, k.0, k.1, target, pr));
            }
        }
    }
}

/// Counts the received bet on the profile's statistics.
pub fn update_profile_stats_with_bet_placed(
    canister_data: &mut CanisterData,
    bet_direction: &BetDirection,
)
    requires
        match *bet_direction {
            BetDirection::Hot => old(canister_data).profile.profile_stats.hot_bets_received
                < u64::MAX,
            BetDirection::Not => old(canister_data).profile.profile_stats.not_bets_received
                < u64::MAX,
        },
    ensures
        final(canister_data).profile.profile_stats == (match *bet_direction {
            BetDirection::Hot => crate::state::ProfileStats {
                hot_bets_received: (old(
                    canister_data,
                ).profile.profile_stats.hot_bets_received + 1) as u64,
                ..old(canister_data).profile.profile_stats
            },
            BetDirection::Not => crate::state::ProfileStats {
                not_bets_received: (old(
                    canister_data,
                ).profile.profile_stats.not_bets_received + 1) as u64,
                ..old(canister_data).profile.profile_stats
            },
        }),
        *final(canister_data) == (CanisterData {
            profile: final(canister_data).profile,
            ..*old(canister_data)
        }),
        final(canister_data).profile == (crate::state::UserProfile {
            profile_stats: final(canister_data).profile.profile_stats,
            ..old(canister_data).profile
        }),
{
    match *bet_direction {
        BetDirection::Hot => {
            self_stats_hot(canister_data);
        },
        BetDirection::Not => {
            self_stats_not(canister_data);
        },
    }
}

fn self_stats_hot(canister_data: &mut CanisterData)
    requires
        old(canister_data).profile.profile_stats.hot_bets_received < u64::MAX,
    ensures
        *final(canister_data) == (CanisterData {
            profile: crate::state::UserProfile {
                profile_stats: crate::state::ProfileStats {
                    hot_bets_received: (old(
                        canister_data,
                    ).profile.profile_stats.hot_bets_received + 1) as u64,
                    ..old(canister_data).profile.profile_stats
                },
                ..old(canister_data).profile
            },
            ..*old(canister_data)
        }),
{
    let stats = canister_data.profile.profile_stats;
    canister_data.profile.profile_stats = crate::state::ProfileStats {
        hot_bets_received: stats.hot_bets_received + 1,
        ..stats
    };
}

fn self_stats_not(canister_data: &mut CanisterData)
    requires
        old(canister_data).profile.profile_stats.not_bets_received < u64::MAX,
    ensures
        *final(canister_data) == (CanisterData {
            profile: crate::state::UserProfile {
                profile_stats: crate::state::ProfileStats {
                    not_bets_received: (old(
                        canister_data,
                    ).profile.profile_stats.not_bets_received + 1) as u64,
                    ..old(canister_data).profile.profile_stats
                },
                ..old(canister_data).profile
            },
            ..*old(canister_data)
        }),
{
    let stats = canister_data.profile.profile_stats;
    canister_data.profile.profile_stats = crate::state::ProfileStats {
        not_bets_received: stats.not_bets_received + 1,
        ..stats
    };
}

} // verus!
