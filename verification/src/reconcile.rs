//! Post-restore reconciliation: after a state restore the heap tree may
//! have rolled back behind the stable side indices, leaving rooms that the
//! tree no longer reaches.  Those rooms were never tabulated — their timer
//! was lost with the heap — so their slots are re-tabulated from the side
//! indices, idempotently: every replayed settlement belongs to a room that
//! was still undecided, so a second run touches nothing and pays nobody.

use vstd::prelude::*;

use crate::omap::OrdMap;
use crate::stable_kv::{stable_kv_contents, Quad};
use crate::state::{spec_outcome_code, CanisterData};
use crate::tabulation::{
    spec_fee_of_msgs, spec_outcome_for, spec_payout_for, spec_room_bets, spec_room_winner,
    spec_saturating_credit, spec_winner_of_code, tabulate_hot_or_not_outcome_for_post_slot,
    BetSettled, RoomBetInfo,
};

verus! {

/// Room `(post, slot, room)` is reachable through the authoritative tree.
pub open spec fn spec_tree_room(cd: CanisterData, post: u64, slot: u64, room: u64) -> bool {
    &&& cd.all_created_posts@.contains_key(post)
    &&& cd.all_created_posts@[post].hot_or_not_details is Some
    &&& cd.all_created_posts@[post].hot_or_not_details->Some_0.slot_history@.contains_key(slot)
    &&& cd.all_created_posts@[post].hot_or_not_details->Some_0.slot_history@[slot].room_details@.contains_key(
        room,
    )
}

/// The slot `(post, slot)` owns a stale room: one recorded in the side
/// index, still undecided, that the tree no longer reaches.
pub open spec fn spec_stale_pair(cd: CanisterData, post: u64, slot: u64) -> bool {
    exists|room: u64|
        #![trigger stable_kv_contents(cd.room_details_map).contains_key((post, slot, room, 0))]
        stable_kv_contents(cd.room_details_map).contains_key((post, slot, room, 0))
            && stable_kv_contents(cd.room_details_map)[(post, slot, room, 0)].3 == 0
            && !spec_tree_room(cd, post, slot, room)
}

/// Replays the tabulation of every slot that owns a stale room: one present
/// in the side index but no longer reachable through the tree.  Slots
/// without a stale room are left entirely alone; rooms that already carry
/// an outcome keep it; each still-undecided room of a replayed slot gets
/// the outcome its recorded bets fix, one settlement is returned per such
/// bet, and the creator's fees those settlements carry are credited.
#[verifier::rlimit(100)]
pub fn reconcile_canister_winnings_impl(canister_data: &mut CanisterData) -> (msgs: Vec<
    BetSettled,
>)
    requires
        old(canister_data).wf_recoverable(),
    ensures
        final(canister_data).wf_recoverable(),
        old(canister_data).wf() ==> final(canister_data).wf(),
        *final(canister_data) == (CanisterData {
            room_details_map: final(canister_data).room_details_map,
            my_token_balance: final(canister_data).my_token_balance,
            ..*old(canister_data)
        }),
        forall|k: Quad|
            stable_kv_contents(final(canister_data).room_details_map).contains_key(k)
                == stable_kv_contents(old(canister_data).room_details_map).contains_key(k),
        // rooms that already carry an outcome keep their entries
        forall|k: Quad|
            #[trigger] stable_kv_contents(old(canister_data).room_details_map).contains_key(k)
                && stable_kv_contents(old(canister_data).room_details_map)[k].3 != 0
                ==> stable_kv_contents(final(canister_data).room_details_map)[k]
                == stable_kv_contents(old(canister_data).room_details_map)[k],
        // a room left undecided was not touched at all
        forall|k: Quad|
            #[trigger] stable_kv_contents(final(canister_data).room_details_map).contains_key(k)
                && stable_kv_contents(final(canister_data).room_details_map)[k].3 == 0
                ==> stable_kv_contents(final(canister_data).room_details_map)[k]
                == stable_kv_contents(old(canister_data).room_details_map)[k],
        // slots without a stale room are left entirely alone
        forall|k: Quad|
            #[trigger] stable_kv_contents(old(canister_data).room_details_map).contains_key(k)
                && !spec_stale_pair(*old(canister_data), k.0, k.1) ==> stable_kv_contents(
                final(canister_data).room_details_map,
            )[k] == stable_kv_contents(old(canister_data).room_details_map)[k],
        // each undecided room of a replayed slot gets its recorded winner
        forall|k: Quad|
            #[trigger] stable_kv_contents(old(canister_data).room_details_map).contains_key(k)
                && k.3 == 0 && stable_kv_contents(old(canister_data).room_details_map)[k].3 == 0
                && spec_stale_pair(*old(canister_data), k.0, k.1) ==> {
                let v0 = stable_kv_contents(old(canister_data).room_details_map)[k];
                let v1 = stable_kv_contents(final(canister_data).room_details_map)[k];
                &&& v1.0 == v0.0 && v1.1 == v0.1 && v1.2 == v0.2
                &&& exists|bets: Seq<RoomBetInfo>|
                    spec_room_bets(
                        stable_kv_contents(old(canister_data).bet_details_map),
                        k.0,
                        k.1,
                        k.2,
                        bets,
                    ) && v1.3 == spec_outcome_code(spec_room_winner(bets))
            },
        // in particular, no stale room stays undecided
        forall|k: Quad|
            #[trigger] stable_kv_contents(old(canister_data).room_details_map).contains_key(k)
                && k.3 == 0 && !spec_tree_room(*old(canister_data), k.0, k.1, k.2)
                ==> stable_kv_contents(final(canister_data).room_details_map)[k].3 != 0,
        // every settlement belongs to a recorded bet of a previously
        // undecided room of a replayed slot and pays what its room's
        // recorded winner fixes
        forall|i: int|
            0 <= i < msgs@.len() ==> {
                let m = #[trigger] msgs@[i];
                let bk = (m.post_id, m.slot_id, m.room_id, m.bet_maker_principal_id);
                let rk = (m.post_id, m.slot_id, m.room_id, 0u64);
                let b0 = stable_kv_contents(old(canister_data).bet_details_map);
                let r1 = stable_kv_contents(final(canister_data).room_details_map);
                let bet = RoomBetInfo {
                    bet_maker_principal_id: m.bet_maker_principal_id,
                    bet_maker_canister_id: b0[bk].2,
                    amount: b0[bk].0,
                    direction_code: b0[bk].1,
                };
                &&& spec_stale_pair(*old(canister_data), m.post_id, m.slot_id)
                &&& b0.contains_key(bk)
                &&& stable_kv_contents(old(canister_data).room_details_map).contains_key(rk)
                &&& stable_kv_contents(old(canister_data).room_details_map)[rk].3 == 0
                &&& m.bet_maker_canister_id == b0[bk].2
                &&& m.outcome == spec_outcome_for(spec_winner_of_code(r1[rk].3), bet)
                &&& m.payout_amount == spec_payout_for(spec_winner_of_code(r1[rk].3), bet) as u64
            },
        // and every such bet is settled by some message
        forall|k: Quad|
            #[trigger] stable_kv_contents(old(canister_data).bet_details_map).contains_key(k)
                && stable_kv_contents(old(canister_data).room_details_map).contains_key(
                (k.0, k.1, k.2, 0),
            ) && stable_kv_contents(old(canister_data).room_details_map)[(k.0, k.1, k.2, 0)].3
                == 0 && spec_stale_pair(*old(canister_data), k.0, k.1) ==> exists|i: int|
                0 <= i < msgs@.len() && (#[trigger] msgs@[i]).post_id == k.0 && msgs@[i].slot_id
                    == k.1 && msgs@[i].room_id == k.2 && msgs@[i].bet_maker_principal_id == k.3,
        // the balance grows by exactly the creator's fees of the replay
        final(canister_data).my_token_balance.utility_token_balance == spec_saturating_credit(
            old(canister_data).my_token_balance.utility_token_balance,
            spec_fee_of_msgs(stable_kv_contents(old(canister_data).bet_details_map), msgs@),
        ),
{
    let ghost cd0 = *canister_data;
    let ghost r0 = stable_kv_contents(cd0.room_details_map);
    let ghost b0 = stable_kv_contents(cd0.bet_details_map);

    // find the (post, slot) pairs owning a stale room
    let room_entries = canister_data.room_details_map.entries();
    let n_rooms = room_entries.len();
    let mut stale_pairs: OrdMap<OrdMap<()>> = OrdMap::new();
    let mut i: usize = 0;
    while i < n_rooms
        invariant
            n_rooms == room_entries@.len(),
            0 <= i <= n_rooms,
            r0 == stable_kv_contents(cd0.room_details_map),
            *canister_data == cd0,
            canister_data.wf_recoverable(),
            stale_pairs.wf(),
            forall|p: u64|
                #[trigger] stale_pairs@.contains_key(p) ==> stale_pairs@[p].wf(),
            forall|p: u64, s: u64|
                stale_pairs@.contains_key(p) && #[trigger] stale_pairs@[p]@.dom().contains(s)
                    ==> spec_stale_pair(cd0, p, s),
            forall|a: int|
                0 <= a < n_rooms ==> r0.contains_key(#[trigger] room_entries@[a].0)
                    && r0[room_entries@[a].0] == room_entries@[a].1,
            forall|a: int|
                0 <= a < i && (#[trigger] room_entries@[a].0).3 == 0 && !spec_tree_room(
                    cd0,
                    room_entries@[a].0.0,
                    room_entries@[a].0.1,
                    room_entries@[a].0.2,
                ) && room_entries@[a].1.3 == 0 ==> stale_pairs@.contains_key(
                    room_entries@[a].0.0,
                ) && stale_pairs@[room_entries@[a].0.0]@.contains_key(room_entries@[a].0.1),
        decreases n_rooms - i,
    {
        let e = &room_entries[i];
        let post_id = e.0.0;
        let slot_id = e.0.1;
        let room_id = e.0.2;
        if e.0.3 == 0 && e.1.3 == 0 {
            let reachable: bool = match canister_data.all_created_posts.get(post_id) {
                None => false,
                Some(post) => {
                    proof {
                        assert(post.wf());
                    }
                    match &post.hot_or_not_details {
                        None => false,
                        Some(h) => match h.slot_history.get(slot_id) {
                            None => false,
                            Some(sd) => {
                                proof {
                                    assert(crate::hot_or_not::spec_slot_wf(*sd));
                                }
                                sd.room_details.get(room_id).is_some()
                            },
                        },
                    }
                },
            };
            proof {
                assert(reachable == spec_tree_room(cd0, post_id, slot_id, room_id));
            }
            if !reachable {
                let mut inner = match stale_pairs.remove(post_id) {
                    Some(inner) => inner,
                    None => OrdMap::new(),
                };
                inner.insert(slot_id, ());
                stale_pairs.insert(post_id, inner);
                proof {
                    assert(e.0 == (post_id, slot_id, room_id, 0u64));
                    assert(stable_kv_contents(cd0.room_details_map).contains_key(
                        (post_id, slot_id, room_id, 0u64),
                    ));
                    assert(stable_kv_contents(cd0.room_details_map)[(
                        post_id,
                        slot_id,
                        room_id,
                        0u64,
                    )].3 == 0);
                    assert(spec_stale_pair(cd0, post_id, slot_id));
                }
            }
        }
        i += 1;
    }
    proof {
        assert forall|k: Quad|
            r0.contains_key(k) && k.3 == 0 && r0[k].3 == 0 && !spec_tree_room(
                cd0,
                k.0,
                k.1,
                k.2,
            ) implies stale_pairs@.contains_key(k.0) && stale_pairs@[k.0]@.contains_key(k.1) by {
            let a = choose|a: int|
                0 <= a < room_entries@.len() && #[trigger] room_entries@[a].0 == k;
        }
    }

    // replay the tabulation of each such slot
    let mut msgs: Vec<BetSettled> = Vec::new();
    let outer = stale_pairs.entries();
    proof {
        assert forall|b: int, s: u64|
            0 <= b < outer@.len() && #[trigger] outer@[b].1@.dom().contains(
                s,
            ) implies spec_stale_pair(cd0, outer@[b].0, s) by {
            assert(stale_pairs@.contains_key(outer@[b].0));
            assert(outer@[b].1 == stale_pairs@[outer@[b].0]);
            assert(stale_pairs@[outer@[b].0]@.dom().contains(s));
        }
        assert forall|b: int| 0 <= b < outer@.len() implies (#[trigger] outer@[b].1).wf() by {
            assert(stale_pairs@.contains_key(outer@[b].0));
            assert(outer@[b].1 == stale_pairs@[outer@[b].0]);
        }
    }
    let n_outer = outer.len();
    let mut a: usize = 0;
    while a < n_outer
        invariant
            n_outer == outer@.len(),
            0 <= a <= n_outer,
            r0 == stable_kv_contents(cd0.room_details_map),
            b0 == stable_kv_contents(cd0.bet_details_map),
            canister_data.wf_recoverable(),
            cd0.wf() ==> canister_data.wf(),
            b0 == stable_kv_contents(canister_data.bet_details_map),
            forall|b: int|
                0 <= b < n_outer ==> (#[trigger] outer@[b].1).wf(),
            forall|b: int, s: u64|
                0 <= b < n_outer && #[trigger] outer@[b].1@.dom().contains(s)
                    ==> spec_stale_pair(cd0, outer@[b].0, s),
            forall|b: int, c: int| 0 <= b < c < n_outer ==> outer@[b].0 < outer@[c].0,
            *canister_data == (CanisterData {
                room_details_map: canister_data.room_details_map,
                my_token_balance: canister_data.my_token_balance,
                ..cd0
            }),
            canister_data.my_token_balance.utility_token_balance == spec_saturating_credit(
                cd0.my_token_balance.utility_token_balance,
                spec_fee_of_msgs(b0, msgs@),
            ),
            forall|k: Quad|
                stable_kv_contents(canister_data.room_details_map).contains_key(k)
                    == r0.contains_key(k),
            forall|k: Quad|
                #[trigger] r0.contains_key(k) && r0[k].3 != 0 ==> stable_kv_contents(
                    canister_data.room_details_map,
                )[k] == r0[k],
            forall|k: Quad|
                #[trigger] stable_kv_contents(canister_data.room_details_map).contains_key(k)
                    && stable_kv_contents(canister_data.room_details_map)[k].3 == 0
                    ==> stable_kv_contents(canister_data.room_details_map)[k] == r0[k],
            // rooms of pairs not yet replayed are untouched
            forall|k: Quad|
                #[trigger] r0.contains_key(k) && !(exists|b: int|
                    0 <= b < a && (#[trigger] outer@[b].0) == k.0 && outer@[b].1@.contains_key(
                        k.1,
                    )) ==> stable_kv_contents(canister_data.room_details_map)[k] == r0[k],
            // undecided rooms of replayed pairs carry their recorded winner
            forall|k: Quad, b: int|
                #[trigger] r0.contains_key(k) && k.3 == 0 && r0[k].3 == 0 && 0 <= b < a && (
                #[trigger] outer@[b].0) == k.0 && outer@[b].1@.contains_key(k.1) ==> {
                    let v1 = stable_kv_contents(canister_data.room_details_map)[k];
                    &&& v1.0 == r0[k].0 && v1.1 == r0[k].1 && v1.2 == r0[k].2
                    &&& exists|bets: Seq<RoomBetInfo>|
                        spec_room_bets(b0, k.0, k.1, k.2, bets) && v1.3 == spec_outcome_code(
                            spec_room_winner(bets),
                        )
                },
            // settlements so far are sound
            forall|i2: int|
                0 <= i2 < msgs@.len() ==> {
                    let m = #[trigger] msgs@[i2];
                    let bk = (m.post_id, m.slot_id, m.room_id, m.bet_maker_principal_id);
                    let rk = (m.post_id, m.slot_id, m.room_id, 0u64);
                    let r1 = stable_kv_contents(canister_data.room_details_map);
                    let bet = RoomBetInfo {
                        bet_maker_principal_id: m.bet_maker_principal_id,
                        bet_maker_canister_id: b0[bk].2,
                        amount: b0[bk].0,
                        direction_code: b0[bk].1,
                    };
                    &&& spec_stale_pair(cd0, m.post_id, m.slot_id)
                    &&& (exists|b: int|
                        0 <= b < a && (#[trigger] outer@[b].0) == m.post_id
                            && outer@[b].1@.contains_key(m.slot_id))
                    &&& b0.contains_key(bk)
                    &&& r0.contains_key(rk)
                    &&& r0[rk].3 == 0
                    &&& m.bet_maker_canister_id == b0[bk].2
                    &&& m.outcome == spec_outcome_for(spec_winner_of_code(r1[rk].3), bet)
                    &&& m.payout_amount == spec_payout_for(spec_winner_of_code(r1[rk].3), bet)
                        as u64
                },
            // and complete for every replayed pair
            forall|k: Quad, b: int|
                #[trigger] b0.contains_key(k) && r0.contains_key((k.0, k.1, k.2, 0)) && r0[(
                    k.0,
                    k.1,
                    k.2,
                    0,
                )].3 == 0 && 0 <= b < a && (#[trigger] outer@[b].0) == k.0
                    && outer@[b].1@.contains_key(k.1) ==> exists|i2: int|
                    0 <= i2 < msgs@.len() && (#[trigger] msgs@[i2]).post_id == k.0
                        && msgs@[i2].slot_id == k.1 && msgs@[i2].room_id == k.2
                        && msgs@[i2].bet_maker_principal_id == k.3,
        decreases n_outer - a,
    {
        let post_id = outer[a].0;
        let inner = outer[a].1.entries();
        let n_inner = inner.len();
        let mut b: usize = 0;
        while b < n_inner
            invariant
                n_outer == outer@.len(),
                0 <= a < n_outer,
                n_inner == inner@.len(),
                0 <= b <= n_inner,
                r0 == stable_kv_contents(cd0.room_details_map),
                b0 == stable_kv_contents(cd0.bet_details_map),
                post_id == outer@[a as int].0,
                forall|c: int|
                    0 <= c < n_inner ==> (#[trigger] outer@[a as int].1@.contains_key(
                        inner@[c].0,
                    )),
                forall|s: u64|
                    outer@[a as int].1@.contains_key(s) ==> exists|c: int|
                        0 <= c < n_inner && #[trigger] inner@[c].0 == s,
                forall|c: int, c2: int| 0 <= c < c2 < n_inner ==> inner@[c].0 < inner@[c2].0,
                canister_data.wf_recoverable(),
                cd0.wf() ==> canister_data.wf(),
                b0 == stable_kv_contents(canister_data.bet_details_map),
                forall|b2: int|
                    0 <= b2 < n_outer ==> (#[trigger] outer@[b2].1).wf(),
                forall|b2: int, s: u64|
                    0 <= b2 < n_outer && #[trigger] outer@[b2].1@.dom().contains(s)
                        ==> spec_stale_pair(cd0, outer@[b2].0, s),
                forall|b2: int, c: int| 0 <= b2 < c < n_outer ==> outer@[b2].0 < outer@[c].0,
                *canister_data == (CanisterData {
                    room_details_map: canister_data.room_details_map,
                    my_token_balance: canister_data.my_token_balance,
                    ..cd0
                }),
                canister_data.my_token_balance.utility_token_balance == spec_saturating_credit(
                    cd0.my_token_balance.utility_token_balance,
                    spec_fee_of_msgs(b0, msgs@),
                ),
                forall|k: Quad|
                    stable_kv_contents(canister_data.room_details_map).contains_key(k)
                        == r0.contains_key(k),
                forall|k: Quad|
                    #[trigger] r0.contains_key(k) && r0[k].3 != 0 ==> stable_kv_contents(
                        canister_data.room_details_map,
                    )[k] == r0[k],
                forall|k: Quad|
                    #[trigger] stable_kv_contents(canister_data.room_details_map).contains_key(k)
                        && stable_kv_contents(canister_data.room_details_map)[k].3 == 0
                        ==> stable_kv_contents(canister_data.room_details_map)[k] == r0[k],
                // rooms untouched unless their pair was already replayed,
                // wholly or up to the current slot
                forall|k: Quad|
                    #[trigger] r0.contains_key(k) && !(exists|b2: int|
                        0 <= b2 < a && (#[trigger] outer@[b2].0) == k.0
                            && outer@[b2].1@.contains_key(k.1)) && !(k.0 == post_id && exists|
                        c: int,
                    |
                        0 <= c < b && (#[trigger] inner@[c].0) == k.1) ==> stable_kv_contents(
                        canister_data.room_details_map,
                    )[k] == r0[k],
                forall|k: Quad, b2: int|
                    #[trigger] r0.contains_key(k) && k.3 == 0 && r0[k].3 == 0 && 0 <= b2 < a && (
                    #[trigger] outer@[b2].0) == k.0 && outer@[b2].1@.contains_key(k.1) ==> {
                        let v1 = stable_kv_contents(canister_data.room_details_map)[k];
                        &&& v1.0 == r0[k].0 && v1.1 == r0[k].1 && v1.2 == r0[k].2
                        &&& exists|bets: Seq<RoomBetInfo>|
                            spec_room_bets(b0, k.0, k.1, k.2, bets) && v1.3 == spec_outcome_code(
                                spec_room_winner(bets),
                            )
                    },
                forall|k: Quad, c: int|
                    #[trigger] r0.contains_key(k) && k.3 == 0 && r0[k].3 == 0 && k.0 == post_id
                        && 0 <= c < b && (#[trigger] inner@[c].0) == k.1 ==> {
                        let v1 = stable_kv_contents(canister_data.room_details_map)[k];
                        &&& v1.0 == r0[k].0 && v1.1 == r0[k].1 && v1.2 == r0[k].2
                        &&& exists|bets: Seq<RoomBetInfo>|
                            spec_room_bets(b0, k.0, k.1, k.2, bets) && v1.3 == spec_outcome_code(
                                spec_room_winner(bets),
                            )
                    },
                forall|i2: int|
                    0 <= i2 < msgs@.len() ==> {
                        let m = #[trigger] msgs@[i2];
                        let bk = (m.post_id, m.slot_id, m.room_id, m.bet_maker_principal_id);
                        let rk = (m.post_id, m.slot_id, m.room_id, 0u64);
                        let r1 = stable_kv_contents(canister_data.room_details_map);
                        let bet = RoomBetInfo {
                            bet_maker_principal_id: m.bet_maker_principal_id,
                            bet_maker_canister_id: b0[bk].2,
                            amount: b0[bk].0,
                            direction_code: b0[bk].1,
                        };
                        &&& spec_stale_pair(cd0, m.post_id, m.slot_id)
                        &&& ((exists|b2: int|
                            0 <= b2 < a && (#[trigger] outer@[b2].0) == m.post_id
                                && outer@[b2].1@.contains_key(m.slot_id)) || (m.post_id == post_id
                            && exists|c: int| 0 <= c < b && (#[trigger] inner@[c].0) == m.slot_id))
                        &&& b0.contains_key(bk)
                        &&& r0.contains_key(rk)
                        &&& r0[rk].3 == 0
                        &&& m.bet_maker_canister_id == b0[bk].2
                        &&& m.outcome == spec_outcome_for(spec_winner_of_code(r1[rk].3), bet)
                        &&& m.payout_amount == spec_payout_for(spec_winner_of_code(r1[rk].3), bet)
                            as u64
                    },
                forall|k: Quad, b2: int|
                    #[trigger] b0.contains_key(k) && r0.contains_key((k.0, k.1, k.2, 0)) && r0[(
                        k.0,
                        k.1,
                        k.2,
                        0,
                    )].3 == 0 && 0 <= b2 < a && (#[trigger] outer@[b2].0) == k.0
                        && outer@[b2].1@.contains_key(k.1) ==> exists|i2: int|
                        0 <= i2 < msgs@.len() && (#[trigger] msgs@[i2]).post_id == k.0
                            && msgs@[i2].slot_id == k.1 && msgs@[i2].room_id == k.2
                            && msgs@[i2].bet_maker_principal_id == k.3,
                forall|k: Quad, c: int|
                    #[trigger] b0.contains_key(k) && r0.contains_key((k.0, k.1, k.2, 0)) && r0[(
                        k.0,
                        k.1,
                        k.2,
                        0,
                    )].3 == 0 && k.0 == post_id && 0 <= c < b && (#[trigger] inner@[c].0) == k.1
                        ==> exists|i2: int|
                        0 <= i2 < msgs@.len() && (#[trigger] msgs@[i2]).post_id == k.0
                            && msgs@[i2].slot_id == k.1 && msgs@[i2].room_id == k.2
                            && msgs@[i2].bet_maker_principal_id == k.3,
            decreases n_inner - b,
        {
            let slot_id = inner[b].0;
            let ghost r_pre = stable_kv_contents(canister_data.room_details_map);
            proof {
                // this pair has not been replayed yet, so its rooms still
                // stand as they were
                assert forall|k: Quad|
                    r0.contains_key(k) && k.0 == post_id && k.1 == slot_id implies r_pre[k]
                    == r0[k] by {
                    assert forall|b2: int|
                        0 <= b2 < a implies (#[trigger] outer@[b2].0) != post_id by {}
                    assert forall|c: int|
                        0 <= c < b implies (#[trigger] inner@[c].0) != slot_id by {}
                }
            }
            let ghost bal_pre = canister_data.my_token_balance.utility_token_balance;
            let slot_msgs = tabulate_hot_or_not_outcome_for_post_slot(
                canister_data,
                post_id,
                slot_id,
            );
            let ghost msgs_before = msgs@;
            let n_msgs = slot_msgs.len();
            let mut w: usize = 0;
            while w < n_msgs
                invariant
                    n_msgs == slot_msgs@.len(),
                    0 <= w <= n_msgs,
                    msgs@ == msgs_before + slot_msgs@.take(w as int),
                decreases n_msgs - w,
            {
                msgs.push(slot_msgs[w]);
                proof {
                    assert(msgs@ =~= msgs_before + slot_msgs@.take(w as int + 1));
                }
                w += 1;
            }
            proof {
                assert(msgs@ =~= msgs_before + slot_msgs@);
                crate::tabulation::lemma_fee_of_msgs_concat(b0, msgs_before, slot_msgs@);
                crate::tabulation::lemma_fee_of_msgs_nonneg(b0, msgs_before);
                crate::tabulation::lemma_fee_of_msgs_nonneg(b0, slot_msgs@);
                crate::tabulation::lemma_saturating_credit_compose(
                    cd0.my_token_balance.utility_token_balance,
                    spec_fee_of_msgs(b0, msgs_before),
                    spec_fee_of_msgs(b0, slot_msgs@),
                );
                assert(outer@[a as int].1@.contains_key(slot_id));
                assert(outer@[a as int].1@.dom().contains(slot_id));
                assert(spec_stale_pair(cd0, post_id, slot_id));
                let r1 = stable_kv_contents(canister_data.room_details_map);
                // messages of this slot are sound against the original state
                assert forall|i2: int|
                    msgs_before.len() <= i2 < msgs@.len() implies {
                    let m = #[trigger] msgs@[i2];
                    m == slot_msgs@[i2 - msgs_before.len()] && m.post_id == post_id && m.slot_id
                        == slot_id && r0.contains_key((m.post_id, m.slot_id, m.room_id, 0u64))
                        && r0[(m.post_id, m.slot_id, m.room_id, 0u64)].3 == 0
                } by {
                    assert(msgs@[i2] == slot_msgs@[i2 - msgs_before.len()]);
                    let m = msgs@[i2];
                    assert(r_pre.contains_key((m.post_id, m.slot_id, m.room_id, 0u64)));
                    assert(r_pre[(m.post_id, m.slot_id, m.room_id, 0u64)] == r0[(
                        m.post_id,
                        m.slot_id,
                        m.room_id,
                        0u64,
                    )]);
                }
                // earlier settlements keep their room entries: those rooms
                // belong to other pairs, which this replay left alone
                assert forall|i2: int| 0 <= i2 < msgs_before.len() implies msgs@[i2]
                    == msgs_before[i2] && r1[(
                    msgs_before[i2].post_id,
                    msgs_before[i2].slot_id,
                    msgs_before[i2].room_id,
                    0u64,
                )] == r_pre[(
                    msgs_before[i2].post_id,
                    msgs_before[i2].slot_id,
                    msgs_before[i2].room_id,
                    0u64,
                )] by {
                    let m = msgs_before[i2];
                    assert(!(m.post_id == post_id && m.slot_id == slot_id));
                    assert(r_pre.contains_key((m.post_id, m.slot_id, m.room_id, 0u64)));
                }
                // completeness carries over, and extends to this slot
                assert forall|k: Quad, c: int|
                    #[trigger] b0.contains_key(k) && r0.contains_key((k.0, k.1, k.2, 0)) && r0[(
                        k.0,
                        k.1,
                        k.2,
                        0,
                    )].3 == 0 && k.0 == post_id && 0 <= c < b + 1 && (#[trigger] inner@[c].0)
                        == k.1 implies exists|i2: int|
                    0 <= i2 < msgs@.len() && (#[trigger] msgs@[i2]).post_id == k.0
                        && msgs@[i2].slot_id == k.1 && msgs@[i2].room_id == k.2
                        && msgs@[i2].bet_maker_principal_id == k.3 by {
                    if c < b {
                        let i2 = choose|i2: int|
                            0 <= i2 < msgs_before.len() && (#[trigger] msgs_before[i2]).post_id
                                == k.0 && msgs_before[i2].slot_id == k.1 && msgs_before[i2].room_id
                                == k.2 && msgs_before[i2].bet_maker_principal_id == k.3;
                        assert(msgs@[i2] == msgs_before[i2]);
                    } else {
                        assert(k.1 == slot_id);
                        assert(r_pre.contains_key((post_id, slot_id, k.2, 0)));
                        assert(r_pre[(post_id, slot_id, k.2, 0)].3 == 0);
                        let j = choose|j: int|
                            0 <= j < slot_msgs@.len() && (#[trigger] slot_msgs@[j]).room_id == k.2
                                && slot_msgs@[j].bet_maker_principal_id == k.3;
                        assert(msgs@[msgs_before.len() + j] == slot_msgs@[j]);
                        assert(slot_msgs@[j].post_id == post_id);
                        assert(slot_msgs@[j].slot_id == slot_id);
                    }
                }
                assert forall|k: Quad, b2: int|
                    #[trigger] b0.contains_key(k) && r0.contains_key((k.0, k.1, k.2, 0)) && r0[(
                        k.0,
                        k.1,
                        k.2,
                        0,
                    )].3 == 0 && 0 <= b2 < a && (#[trigger] outer@[b2].0) == k.0
                        && outer@[b2].1@.contains_key(k.1) implies exists|i2: int|
                    0 <= i2 < msgs@.len() && (#[trigger] msgs@[i2]).post_id == k.0
                        && msgs@[i2].slot_id == k.1 && msgs@[i2].room_id == k.2
                        && msgs@[i2].bet_maker_principal_id == k.3 by {
                    let i2 = choose|i2: int|
                        0 <= i2 < msgs_before.len() && (#[trigger] msgs_before[i2]).post_id == k.0
                            && msgs_before[i2].slot_id == k.1 && msgs_before[i2].room_id == k.2
                            && msgs_before[i2].bet_maker_principal_id == k.3;
                    assert(msgs@[i2] == msgs_before[i2]);
                }
            }
            b += 1;
        }
        a += 1;
    }
    proof {
        crate::tabulation::lemma_fee_of_msgs_nonneg(b0, msgs@);
        assert forall|k: Quad|
            r0.contains_key(k) && !spec_stale_pair(cd0, k.0, k.1) implies stable_kv_contents(
            canister_data.room_details_map,
        )[k] == r0[k] by {
            if exists|b: int|
                0 <= b < outer@.len() && (#[trigger] outer@[b].0) == k.0
                    && outer@[b].1@.contains_key(k.1) {
                let bw = choose|b: int|
                    0 <= b < outer@.len() && (#[trigger] outer@[b].0) == k.0
                        && outer@[b].1@.contains_key(k.1);
                assert(spec_stale_pair(cd0, k.0, k.1));
            }
        }
        assert forall|k: Quad|
            r0.contains_key(k) && k.3 == 0 && r0[k].3 == 0 && spec_stale_pair(
                cd0,
                k.0,
                k.1,
            ) implies {
            let v1 = stable_kv_contents(canister_data.room_details_map)[k];
            &&& v1.0 == r0[k].0 && v1.1 == r0[k].1 && v1.2 == r0[k].2
            &&& exists|bets: Seq<RoomBetInfo>|
                spec_room_bets(b0, k.0, k.1, k.2, bets) && v1.3 == spec_outcome_code(
                    spec_room_winner(bets),
                )
        } by {
            let room = choose|room: u64|
                stable_kv_contents(cd0.room_details_map).contains_key((k.0, k.1, room, 0))
                    && stable_kv_contents(cd0.room_details_map)[(k.0, k.1, room, 0)].3 == 0
                    && !spec_tree_room(cd0, k.0, k.1, room);
            assert(stale_pairs@.contains_key(k.0) && stale_pairs@[k.0]@.contains_key(k.1));
            let bw = choose|b: int|
                0 <= b < outer@.len() && (#[trigger] outer@[b].0) == k.0;
            assert(outer@[bw].1 == stale_pairs@[k.0]);
            assert(outer@[bw].1@.contains_key(k.1));
        }
        assert forall|k: Quad|
            r0.contains_key(k) && k.3 == 0 && !spec_tree_room(
                cd0,
                k.0,
                k.1,
                k.2,
            ) implies stable_kv_contents(canister_data.room_details_map)[k].3 != 0 by {
            if r0[k].3 == 0 {
                assert(spec_stale_pair(cd0, k.0, k.1));
            }
        }
        assert forall|k: Quad|
            b0.contains_key(k) && r0.contains_key((k.0, k.1, k.2, 0)) && r0[(
                k.0,
                k.1,
                k.2,
                0,
            )].3 == 0 && spec_stale_pair(cd0, k.0, k.1) implies exists|i2: int|
            0 <= i2 < msgs@.len() && (#[trigger] msgs@[i2]).post_id == k.0 && msgs@[i2].slot_id
                == k.1 && msgs@[i2].room_id == k.2 && msgs@[i2].bet_maker_principal_id == k.3 by {
            assert(stale_pairs@.contains_key(k.0) && stale_pairs@[k.0]@.contains_key(k.1));
            let bw = choose|b: int|
                0 <= b < outer@.len() && (#[trigger] outer@[b].0) == k.0;
            assert(outer@[bw].1 == stale_pairs@[k.0]);
            assert(outer@[bw].1@.contains_key(k.1));
        }
    }
    msgs
}

} // verus!
