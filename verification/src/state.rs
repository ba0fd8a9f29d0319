//! The actor's state: the authoritative post tree, the stable-memory side
//! indices that shadow it, the slot-closing timer queue, the profile, the
//! token balance and the migration marker — together with the invariant that
//! ties them all: side indices mirror the tree exactly, and the timer queue
//! mirrors the first-bet registry.

use vstd::prelude::*;

use crate::hot_or_not::{spec_bet_in, BetDirection};
use crate::omap::OrdMap;
use crate::post::Post;
use crate::stable_kv::{stable_kv_contents, timer_queue_contents, Quad, StableKV, TimerQueue};

verus! {

#[derive(Clone, Copy, PartialEq, Eq, Structural, Debug)]
pub enum RoomBetPossibleOutcomes {
    BetOngoing,
    HotWon,
    NotWon,
    Draw,
}

#[derive(Clone, Copy, PartialEq, Eq, Structural, Debug)]
pub enum SessionType {
    AnonymousSession,
    RegisteredSession,
}

#[derive(Clone, Copy, PartialEq, Eq, Structural, Debug)]
pub enum MigrationInfo {
    NotMigrated,
    MigratedToYral { account_principal: u64 },
    MigratedFromHotOrNot { account_principal: u64 },
}

#[derive(Clone, Copy, PartialEq, Eq, Structural, Debug)]
pub struct ProfileStats {
    pub hot_bets_received: u64,
    pub not_bets_received: u64,
}

#[derive(Clone, Copy, PartialEq, Eq, Structural, Debug)]
pub struct UserProfile {
    pub principal_id: Option<u64>,
    pub profile_stats: ProfileStats,
}

#[derive(Clone, Copy, PartialEq, Eq, Structural, Debug)]
pub struct TokenBalance {
    pub utility_token_balance: u64,
}

/// When and into which slot the first bet on a post landed.
#[derive(Clone, Copy, PartialEq, Eq, Structural, Debug)]
pub struct FirstBetDetail {
    pub bet_placed_at_ms: u64,
    pub ongoing_slot: u8,
}

pub struct PlaceBetArg {
    pub post_canister_id: u64,
    pub post_id: u64,
    pub bet_amount: u64,
    pub bet_direction: BetDirection,
}

pub struct CanisterData {
    /// The authoritative nested tree, keyed by post id.
    pub all_created_posts: OrdMap<Post>,
    /// Side index: (post, slot, room, 0) to (pot, hot bets, not bets, outcome code).
    pub room_details_map: StableKV,
    /// Side index: (post, slot, room, principal) to (amount, direction code, bettor actor, 0).
    pub bet_details_map: StableKV,
    /// Side index: (post, principal, 0, 0), a presence set.
    pub post_principal_map: StableKV,
    /// Side index: (post, slot, 0, 0), a presence set.
    pub slot_details_map: StableKV,
    /// Post id to the time and slot of its first bet.
    pub first_bet_placed_at_hashmap: OrdMap<FirstBetDetail>,
    /// Queue of (first-bet time, post id) keys awaiting tabulation.
    pub bet_timer_posts: TimerQueue,
    /// The post whose slot-closing timer is currently scheduled, if any.
    pub is_timer_running: Option<u64>,
    pub profile: UserProfile,
    pub my_token_balance: TokenBalance,
    pub migration_info: MigrationInfo,
    pub session_type: Option<SessionType>,
}

/// Numeric code a bet direction is stored under in the side indices.
pub open spec fn spec_direction_code(d: BetDirection) -> u64 {
    match d {
        BetDirection::Hot => 0,
        BetDirection::Not => 1,
    }
}

/// Numeric code a room outcome is stored under in the side indices.
pub open spec fn spec_outcome_code(o: RoomBetPossibleOutcomes) -> u64 {
    match o {
        RoomBetPossibleOutcomes::BetOngoing => 0,
        RoomBetPossibleOutcomes::HotWon => 1,
        RoomBetPossibleOutcomes::NotWon => 2,
        RoomBetPossibleOutcomes::Draw => 3,
    }
}

pub open spec fn spec_room_key(post: u64, slot: u64, room: u64) -> Quad {
    (post, slot, room, 0)
}

pub open spec fn spec_bet_key(post: u64, slot: u64, room: u64, principal: u64) -> Quad {
    (post, slot, room, principal)
}

pub open spec fn spec_post_principal_key(post: u64, principal: u64) -> Quad {
    (post, principal, 0, 0)
}

pub open spec fn spec_slot_key(post: u64, slot: u64) -> Quad {
    (post, slot, 0, 0)
}

/// The timer-queue key of a post whose first bet arrived at `ts_ms`.
pub open spec fn spec_timer_key(ts_ms: u64, post: u64) -> u128 {
    ((ts_ms as u128) * 0x1_0000_0000_0000_0000 + (post as u128)) as u128
}

/// The bet `principal` placed in room `(post, slot, room)` of the tree of
/// posts, if any.
pub open spec fn spec_tree_bet_of(
    posts: OrdMap<Post>,
    post: u64,
    slot: u64,
    room: u64,
    principal: u64,
) -> bool {
    &&& posts@.contains_key(post)
    &&& posts@[post].hot_or_not_details is Some
    &&& spec_bet_in(posts@[post].hot_or_not_details->Some_0, slot, room, principal)
}

pub open spec fn spec_tree_bet_details_of(
    posts: OrdMap<Post>,
    post: u64,
    slot: u64,
    room: u64,
    principal: u64,
) -> crate::hot_or_not::BetDetails
    recommends
        spec_tree_bet_of(posts, post, slot, room, principal),
{
    posts@[post].hot_or_not_details->Some_0.slot_history@[slot].room_details@[room].bets_made@[principal]
}

/// The posts of a tree are well formed.
pub open spec fn spec_posts_wf_of(posts: OrdMap<Post>) -> bool {
    &&& posts.wf()
    &&& forall|p: u64| posts@.contains_key(p) ==> (#[trigger] posts@[p]).wf()
}

/// A first-bet registry and a timer queue mirror one another: a post is
/// registered with a timestamp exactly when the queue holds the
/// corresponding key.
pub open spec fn spec_scheduler_in_sync_of(
    first_bets: OrdMap<FirstBetDetail>,
    queue: TimerQueue,
) -> bool {
    &&& first_bets.wf()
    &&& forall|p: u64|
        first_bets@.contains_key(p) ==> timer_queue_contents(queue).contains(
            spec_timer_key((#[trigger] first_bets@[p]).bet_placed_at_ms, p),
        )
    &&& forall|k: u128|
        #[trigger] timer_queue_contents(queue).contains(k) ==> {
            let p = (k % 0x1_0000_0000_0000_0000) as u64;
            &&& first_bets@.contains_key(p)
            &&& k == spec_timer_key(first_bets@[p].bet_placed_at_ms, p)
        }
}

impl CanisterData {
    /// The bet `principal` placed in room `(post, slot, room)` of the
    /// authoritative tree, if any.
    pub open spec fn spec_tree_bet(self, post: u64, slot: u64, room: u64, principal: u64) -> bool {
        spec_tree_bet_of(self.all_created_posts, post, slot, room, principal)
    }

    pub open spec fn spec_tree_bet_details(self, post: u64, slot: u64, room: u64, principal: u64)
        -> crate::hot_or_not::BetDetails
        recommends
            self.spec_tree_bet(post, slot, room, principal),
    {
        spec_tree_bet_details_of(self.all_created_posts, post, slot, room, principal)
    }

    /// The posts of the tree are well formed.
    pub open spec fn spec_posts_wf(self) -> bool {
        spec_posts_wf_of(self.all_created_posts)
    }

    /// The first-bet registry and the timer queue mirror one another.
    pub open spec fn spec_scheduler_in_sync(self) -> bool {
        spec_scheduler_in_sync_of(self.first_bet_placed_at_hashmap, self.bet_timer_posts)
    }

    /// Every bet of the tree is present in all four side indices, with the
    /// amount and direction the tree records, and the room aggregates stay
    /// below the post's own totals.
    pub open spec fn spec_side_covers_tree(self) -> bool {
        spec_side_covers_tree_of(
            self.all_created_posts,
            self.room_details_map,
            self.bet_details_map,
            self.post_principal_map,
            self.slot_details_map,
        )
    }
}

/// Body of [`CanisterData::spec_side_covers_tree`], over the fields alone.
pub open spec fn spec_side_covers_tree_of(
    posts: OrdMap<Post>,
    room_details_map: StableKV,
    bet_details_map: StableKV,
    post_principal_map: StableKV,
    slot_details_map: StableKV,
) -> bool {
    forall|post: u64, slot: u64, room: u64, principal: u64|
        #[trigger] spec_tree_bet_of(posts, post, slot, room, principal) ==> {
            let b = spec_tree_bet_details_of(posts, post, slot, room, principal);
            let bets = stable_kv_contents(bet_details_map);
                &&& bets.contains_key(spec_bet_key(post, slot, room, principal))
                &&& bets[spec_bet_key(post, slot, room, principal)].0 == b.amount
                &&& bets[spec_bet_key(post, slot, room, principal)].1 == spec_direction_code(
                    b.bet_direction,
                )
                &&& stable_kv_contents(room_details_map).contains_key(
                    spec_room_key(post, slot, room),
                )
                &&& stable_kv_contents(post_principal_map).contains_key(
                    spec_post_principal_key(post, principal),
                )
                &&& stable_kv_contents(slot_details_map).contains_key(spec_slot_key(post, slot))
            }
}

/// Body of [`CanisterData::spec_tree_covers_side`], over the fields alone.
pub open spec fn spec_tree_covers_side_of(
    posts: OrdMap<Post>,
    room_details_map: StableKV,
    bet_details_map: StableKV,
    post_principal_map: StableKV,
    slot_details_map: StableKV,
) -> bool {
    &&& forall|k: Quad|
        #[trigger] stable_kv_contents(bet_details_map).contains_key(k) ==> {
            &&& spec_tree_bet_of(posts, k.0, k.1, k.2, k.3)
            &&& stable_kv_contents(bet_details_map)[k].0 == spec_tree_bet_details_of(
                posts,
                k.0,
                k.1,
                k.2,
                k.3,
            ).amount
            &&& stable_kv_contents(bet_details_map)[k].1 == spec_direction_code(
                spec_tree_bet_details_of(posts, k.0, k.1, k.2, k.3).bet_direction,
            )
        }
    &&& forall|k: Quad|
        #[trigger] stable_kv_contents(room_details_map).contains_key(k) ==> {
            &&& k.3 == 0
            &&& exists|pr: u64| spec_tree_bet_of(posts, k.0, k.1, k.2, pr)
            &&& {
                let h = posts@[k.0].hot_or_not_details->Some_0;
                let v = stable_kv_contents(room_details_map)[k];
                &&& v.0 <= h.aggregate_stats.total_amount_bet
                &&& v.1 <= h.aggregate_stats.total_number_of_hot_bets
                &&& v.2 <= h.aggregate_stats.total_number_of_not_bets
            }
        }
    &&& forall|k: Quad|
        #[trigger] stable_kv_contents(post_principal_map).contains_key(k) ==> {
            &&& k.2 == 0 && k.3 == 0
            &&& exists|s: u64, r: u64| spec_tree_bet_of(posts, k.0, s, r, k.1)
        }
    &&& forall|k: Quad|
        #[trigger] stable_kv_contents(slot_details_map).contains_key(k) ==> {
            &&& k.2 == 0 && k.3 == 0
            &&& exists|r: u64, pr: u64| spec_tree_bet_of(posts, k.0, k.1, r, pr)
        }
}

/// Every bet entry of the side indices has its room entry beside it.
pub open spec fn spec_side_internal_of(room_details_map: StableKV, bet_details_map: StableKV) -> bool {
    forall|k: Quad|
        #[trigger] stable_kv_contents(bet_details_map).contains_key(k) ==> stable_kv_contents(
            room_details_map,
        ).contains_key((k.0, k.1, k.2, 0))
}

impl CanisterData {
    /// Every entry of the bet side index corresponds to a bet of the tree;
    /// every room of the room side index is a room of the tree, and its
    /// recorded pot and counters stay below the post's aggregate totals.
    pub open spec fn spec_tree_covers_side(self) -> bool {
        spec_tree_covers_side_of(
            self.all_created_posts,
            self.room_details_map,
            self.bet_details_map,
            self.post_principal_map,
            self.slot_details_map,
        )
    }

    /// Every bet entry of the side indices has its room entry beside it:
    /// the two stable maps are written together and stay consistent with
    /// one another even when the tree has rolled back.
    pub open spec fn spec_side_internal(self) -> bool {
        spec_side_internal_of(self.room_details_map, self.bet_details_map)
    }

    /// What still holds right after a state restore: the tree may have
    /// rolled back behind the stable side indices, but the posts are well
    /// formed, the scheduler's structures agree, the tree is covered by the
    /// side indices, and the side indices agree among themselves.
    pub open spec fn wf_recoverable(self) -> bool {
        &&& self.spec_posts_wf()
        &&& self.spec_scheduler_in_sync()
        &&& self.spec_side_covers_tree()
        &&& self.spec_side_internal()
    }

    /// Steady-state well-formedness: additionally, every side-index entry is
    /// backed by the tree, so tree and side indices mirror exactly.
    pub open spec fn wf(self) -> bool {
        &&& self.wf_recoverable()
        &&& self.spec_tree_covers_side()
    }

    pub fn new() -> (r: CanisterData)
        ensures
            r.wf(),
            r.all_created_posts@ == Map::<u64, Post>::empty(),
            r.all_created_posts.spec_len() == 0,
            forall|k: Quad| !stable_kv_contents(r.room_details_map).contains_key(k),
            forall|k: Quad| !stable_kv_contents(r.bet_details_map).contains_key(k),
            forall|k: Quad| !stable_kv_contents(r.post_principal_map).contains_key(k),
            forall|k: Quad| !stable_kv_contents(r.slot_details_map).contains_key(k),
            r.first_bet_placed_at_hashmap@ == Map::<u64, FirstBetDetail>::empty(),
            forall|k: u128| !timer_queue_contents(r.bet_timer_posts).contains(k),
            r.is_timer_running is None,
            r.profile == (UserProfile {
                principal_id: None,
                profile_stats: ProfileStats { hot_bets_received: 0, not_bets_received: 0 },
            }),
            r.my_token_balance.utility_token_balance == 0,
            r.migration_info == MigrationInfo::NotMigrated,
            r.session_type is None,
    {
        CanisterData {
            all_created_posts: OrdMap::new(),
            room_details_map: StableKV::new(),
            bet_details_map: StableKV::new(),
            post_principal_map: StableKV::new(),
            slot_details_map: StableKV::new(),
            first_bet_placed_at_hashmap: OrdMap::new(),
            bet_timer_posts: TimerQueue::new(),
            is_timer_running: None,
            profile: UserProfile {
                principal_id: None,
                profile_stats: ProfileStats { hot_bets_received: 0, not_bets_received: 0 },
            },
            my_token_balance: TokenBalance { utility_token_balance: 0 },
            migration_info: MigrationInfo::NotMigrated,
            session_type: None,
        }
    }
}

impl Default for CanisterData {
    fn default() -> (r: CanisterData)
        ensures
            r.wf(),
    {
        CanisterData::new()
    }
}

/// Creates a post from the frontend's details and appends it to the tree
/// under the next dense id.
pub fn add_post_v2_impl(
    canister_data: &mut CanisterData,
    post_details: crate::post::PostDetailsFromFrontend,
    current_system_time: u64,
) -> (r: Result<u64, String>)
    requires
        old(canister_data).wf(),
        old(canister_data).all_created_posts.spec_len() < u64::MAX,
        !old(canister_data).all_created_posts@.contains_key(
            old(canister_data).all_created_posts.spec_len() as u64,
        ),
    ensures
        final(canister_data).wf(),
        ({
            let id = old(canister_data).all_created_posts.spec_len() as u64;
            let p = final(canister_data).all_created_posts@[id];
            &&& r == Ok::<u64, String>(id)
            &&& final(canister_data).all_created_posts@ == old(
                canister_data,
            ).all_created_posts@.insert(
                id,
                final(canister_data).all_created_posts@[id],
            )
            &&& final(canister_data).all_created_posts@.contains_key(id)
            // the stored post is the one built from the submitted details
            // at the given time
            &&& p.id == id
            &&& p.is_nsfw == post_details.is_nsfw
            &&& p.description == post_details.description
            &&& p.hashtags == post_details.hashtags
            &&& p.video_uid == post_details.video_uid
            &&& p.status == crate::post::PostStatus::Uploaded
            &&& p.created_at == current_system_time
            &&& p.spec_like_count() == 0
            &&& p.share_count == 0
            &&& p.view_stats == (crate::post::PostViewStatistics {
                total_view_count: 1,
                threshold_view_count: 0,
                average_watch_percentage: 0,
            })
            &&& p.homefeed_ranking_score == 0
            &&& p.creator_consent_for_inclusion_in_hot_or_not
                == post_details.creator_consent_for_inclusion_in_hot_or_not
            &&& (post_details.creator_consent_for_inclusion_in_hot_or_not
                ==> match p.hot_or_not_details {
                Some(h) => {
                    &&& h.score == 0
                    &&& h.upvotes.spec_len() == 0
                    &&& h.downvotes.spec_len() == 0
                    &&& h.aggregate_stats == (crate::hot_or_not::AggregateStats {
                        total_number_of_hot_bets: 0,
                        total_number_of_not_bets: 0,
                        total_amount_bet: 0,
                    })
                    &&& h.slot_history@ == Map::<u64, crate::hot_or_not::SlotDetails>::empty()
                },
                None => false,
            })
            &&& (!post_details.creator_consent_for_inclusion_in_hot_or_not
                ==> p.hot_or_not_details is None)
            &&& *final(canister_data) == (CanisterData {
                all_created_posts: final(canister_data).all_created_posts,
                ..*old(canister_data)
            })
        }),
{
    let new_post_id = canister_data.all_created_posts.len() as u64;
    let new_post = Post::new(new_post_id, post_details, current_system_time);
    proof {
        assert(new_post.hot_or_not_details is Some ==> new_post.hot_or_not_details->Some_0.slot_history@
            == Map::<u64, crate::hot_or_not::SlotDetails>::empty());
    }
    canister_data.all_created_posts.insert(new_post_id, new_post);
    proof {
        lemma_tree_grew_without_bets(*old(canister_data), *canister_data, new_post_id);
    }
    Ok(new_post_id)
}

/// Adding a post with an empty (or no) betting ledger disturbs neither the
/// side indices nor the scheduler.
proof fn lemma_tree_grew_without_bets(cd0: CanisterData, cd1: CanisterData, id: u64)
    requires
        cd0.wf(),
        cd1.all_created_posts.wf(),
        !cd0.all_created_posts@.contains_key(id),
        cd1.all_created_posts@ == cd0.all_created_posts@.insert(
            id,
            cd1.all_created_posts@[id],
        ),
        cd1.all_created_posts@.contains_key(id),
        cd1.all_created_posts@[id].wf(),
        cd1.all_created_posts@[id].hot_or_not_details is Some
            ==> cd1.all_created_posts@[id].hot_or_not_details->Some_0.slot_history@ == Map::<
            u64,
            crate::hot_or_not::SlotDetails,
        >::empty(),
        cd1 == (CanisterData { all_created_posts: cd1.all_created_posts, ..cd0 }),
    ensures
        cd1.wf(),
{
    assert forall|post: u64, slot: u64, room: u64, principal: u64|
        #[trigger] spec_tree_bet_of(cd1.all_created_posts, post, slot, room, principal) implies spec_tree_bet_of(cd0.all_created_posts, 
        post,
        slot,
        room,
        principal,
    ) && spec_tree_bet_details_of(cd0.all_created_posts, post, slot, room, principal) == spec_tree_bet_details_of(cd1.all_created_posts, 
        post,
        slot,
        room,
        principal,
    ) by {
        if post == id {
            assert(false);
        }
    }
    assert forall|post: u64, slot: u64, room: u64, principal: u64|
        #[trigger] spec_tree_bet_of(cd0.all_created_posts, post, slot, room, principal) implies spec_tree_bet_of(cd1.all_created_posts, 
        post,
        slot,
        room,
        principal,
    ) by {}
    assert(cd1.spec_side_covers_tree()) by {
        assert forall|post: u64, slot: u64, room: u64, principal: u64|
            #[trigger] spec_tree_bet_of(
            cd1.all_created_posts,
            post,
            slot,
            room,
            principal,
        ) implies {
            let b = spec_tree_bet_details_of(cd1.all_created_posts, post, slot, room, principal);
            let bets = stable_kv_contents(cd1.bet_details_map);
            &&& bets.contains_key(spec_bet_key(post, slot, room, principal))
            &&& bets[spec_bet_key(post, slot, room, principal)].0 == b.amount
            &&& bets[spec_bet_key(post, slot, room, principal)].1 == spec_direction_code(
                b.bet_direction,
            )
            &&& stable_kv_contents(cd1.room_details_map).contains_key(
                spec_room_key(post, slot, room),
            )
            &&& stable_kv_contents(cd1.post_principal_map).contains_key(
                spec_post_principal_key(post, principal),
            )
            &&& stable_kv_contents(cd1.slot_details_map).contains_key(spec_slot_key(post, slot))
        } by {
            assert(spec_tree_bet_of(cd0.all_created_posts, post, slot, room, principal));
        }
    }
    assert(cd1.spec_tree_covers_side()) by {
        assert forall|k: Quad|
            #[trigger] stable_kv_contents(cd1.bet_details_map).contains_key(k) implies {
            &&& spec_tree_bet_of(cd1.all_created_posts, k.0, k.1, k.2, k.3)
            &&& stable_kv_contents(cd1.bet_details_map)[k].0 == spec_tree_bet_details_of(
                cd1.all_created_posts,
                k.0,
                k.1,
                k.2,
                k.3,
            ).amount
            &&& stable_kv_contents(cd1.bet_details_map)[k].1 == spec_direction_code(
                spec_tree_bet_details_of(cd1.all_created_posts, k.0, k.1, k.2, k.3).bet_direction,
            )
        } by {
            assert(spec_tree_bet_of(cd0.all_created_posts, k.0, k.1, k.2, k.3));
        }
        assert forall|k: Quad|
            #[trigger] stable_kv_contents(cd1.room_details_map).contains_key(k) implies k.3 == 0
            && (exists|pr: u64| spec_tree_bet_of(cd1.all_created_posts, k.0, k.1, k.2, pr)) && ({
            let h = cd1.all_created_posts@[k.0].hot_or_not_details->Some_0;
            let v = stable_kv_contents(cd1.room_details_map)[k];
            &&& v.0 <= h.aggregate_stats.total_amount_bet
            &&& v.1 <= h.aggregate_stats.total_number_of_hot_bets
            &&& v.2 <= h.aggregate_stats.total_number_of_not_bets
        }) by {
            let pr = choose|pr: u64| #[trigger] spec_tree_bet_of(cd0.all_created_posts, k.0, k.1, k.2, pr);
            assert(spec_tree_bet_of(cd1.all_created_posts, k.0, k.1, k.2, pr));
            assert(k.0 != id);
            assert(cd1.all_created_posts@[k.0] == cd0.all_created_posts@[k.0]);
        }
        assert forall|k: Quad|
            #[trigger] stable_kv_contents(cd1.post_principal_map).contains_key(k) implies k.2 == 0
            && k.3 == 0 && (exists|s2: u64, r2: u64|
            spec_tree_bet_of(cd1.all_created_posts, k.0, s2, r2, k.1)) by {
            let (ws, wr) = choose|s2: u64, r2: u64| #[trigger] spec_tree_bet_of(cd0.all_created_posts, k.0, s2, r2, k.1);
            assert(spec_tree_bet_of(cd1.all_created_posts, k.0, ws, wr, k.1));
        }
        assert forall|k: Quad|
            #[trigger] stable_kv_contents(cd1.slot_details_map).contains_key(k) implies k.2 == 0
            && k.3 == 0 && (exists|r2: u64, pr: u64|
            spec_tree_bet_of(cd1.all_created_posts, k.0, k.1, r2, pr)) by {
            let (wr, wpr) = choose|r2: u64, pr: u64| #[trigger] spec_tree_bet_of(cd0.all_created_posts, k.0, k.1, r2, pr);
            assert(spec_tree_bet_of(cd1.all_created_posts, k.0, k.1, wr, wpr));
        }
    }
    assert(cd1.spec_scheduler_in_sync());
}



/// A store with the same keys serves the side-coverage clause equally well:
/// that clause looks only at which room keys are present.
pub proof fn lemma_side_covers_same_room_domain(
    posts: OrdMap<Post>,
    rooms0: StableKV,
    rooms1: StableKV,
    bet_details_map: StableKV,
    post_principal_map: StableKV,
    slot_details_map: StableKV,
)
    requires
        spec_side_covers_tree_of(posts, rooms0, bet_details_map, post_principal_map, slot_details_map),
        forall|k: Quad|
            stable_kv_contents(rooms1).contains_key(k) == stable_kv_contents(rooms0).contains_key(
                k,
            ),
    ensures
        spec_side_covers_tree_of(posts, rooms1, bet_details_map, post_principal_map, slot_details_map),
{
    assert forall|post: u64, slot: u64, room: u64, principal: u64|
        #[trigger] spec_tree_bet_of(posts, post, slot, room, principal) implies {
        let b = spec_tree_bet_details_of(posts, post, slot, room, principal);
        let bets = stable_kv_contents(bet_details_map);
        &&& bets.contains_key(spec_bet_key(post, slot, room, principal))
        &&& bets[spec_bet_key(post, slot, room, principal)].0 == b.amount
        &&& bets[spec_bet_key(post, slot, room, principal)].1 == spec_direction_code(
            b.bet_direction,
        )
        &&& stable_kv_contents(rooms1).contains_key(spec_room_key(post, slot, room))
        &&& stable_kv_contents(post_principal_map).contains_key(
            spec_post_principal_key(post, principal),
        )
        &&& stable_kv_contents(slot_details_map).contains_key(spec_slot_key(post, slot))
    } by {
        assert(stable_kv_contents(rooms0).contains_key(spec_room_key(post, slot, room)));
    }
}

/// Likewise for the bet-beside-room clause.
pub proof fn lemma_side_internal_same_room_domain(
    rooms0: StableKV,
    rooms1: StableKV,
    bet_details_map: StableKV,
)
    requires
        spec_side_internal_of(rooms0, bet_details_map),
        forall|k: Quad|
            stable_kv_contents(rooms1).contains_key(k) == stable_kv_contents(rooms0).contains_key(
                k,
            ),
    ensures
        spec_side_internal_of(rooms1, bet_details_map),
{
    assert forall|k: Quad|
        #[trigger] stable_kv_contents(bet_details_map).contains_key(k) implies stable_kv_contents(
        rooms1,
    ).contains_key((k.0, k.1, k.2, 0)) by {
        assert(stable_kv_contents(rooms0).contains_key((k.0, k.1, k.2, 0)));
    }
}

/// And for the side-to-tree clause, as long as the room aggregates
/// themselves are untouched.
pub proof fn lemma_tree_covers_same_room_values(
    posts: OrdMap<Post>,
    rooms0: StableKV,
    rooms1: StableKV,
    bet_details_map: StableKV,
    post_principal_map: StableKV,
    slot_details_map: StableKV,
)
    requires
        spec_tree_covers_side_of(posts, rooms0, bet_details_map, post_principal_map, slot_details_map),
        forall|k: Quad|
            stable_kv_contents(rooms1).contains_key(k) == stable_kv_contents(rooms0).contains_key(
                k,
            ),
        forall|k: Quad|
            #[trigger] stable_kv_contents(rooms0).contains_key(k) ==> {
                let v0 = stable_kv_contents(rooms0)[k];
                let v1 = stable_kv_contents(rooms1)[k];
                v1.0 == v0.0 && v1.1 == v0.1 && v1.2 == v0.2
            },
    ensures
        spec_tree_covers_side_of(posts, rooms1, bet_details_map, post_principal_map, slot_details_map),
{
    assert forall|k: Quad|
        #[trigger] stable_kv_contents(rooms1).contains_key(k) implies {
        &&& k.3 == 0
        &&& exists|pr: u64| spec_tree_bet_of(posts, k.0, k.1, k.2, pr)
        &&& {
            let h = posts@[k.0].hot_or_not_details->Some_0;
            let v = stable_kv_contents(rooms1)[k];
            &&& v.0 <= h.aggregate_stats.total_amount_bet
            &&& v.1 <= h.aggregate_stats.total_number_of_hot_bets
            &&& v.2 <= h.aggregate_stats.total_number_of_not_bets
        }
    } by {
        assert(stable_kv_contents(rooms0).contains_key(k));
    }
}

} // verus!
