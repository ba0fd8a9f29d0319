//! The betting ledger of a post and the betting state machine: deriving the
//! ongoing (slot, room) from the clock, accepting or refusing a bet, and the
//! room-capacity and one-bet-per-principal rules.

use vstd::prelude::*;

use crate::constant::{
    ANONYMOUS_PRINCIPAL_ID, DURATION_OF_EACH_SLOT_IN_SECONDS, MAX_BETS_PER_ROOM,
    TOTAL_DURATION_OF_ALL_SLOTS_IN_SECONDS,
};
use crate::error::BetOnCurrentlyViewingPostError;
use crate::omap::OrdMap;
use crate::post::Post;

verus! {

pub type SlotId = u8;

pub type RoomId = u64;

/// Principals are carried as plain numeric identifiers.
pub type BetMaker = u64;

#[derive(Clone, Copy, PartialEq, Eq, Structural, Debug)]
pub enum BetDirection {
    Hot,
    Not,
}

#[derive(Clone, Copy, PartialEq, Eq, Debug)]
pub enum BettingStatus {
    BettingOpen {
        /// Creation time of the post, in milliseconds since the epoch.
        started_at: u64,
        number_of_participants: u8,
        ongoing_slot: u8,
        ongoing_room: u64,
        has_this_user_participated_in_this_post: Option<bool>,
    },
    BettingClosed,
}

pub enum UserStatusForSpecificHotOrNotPost {
    NotParticipatedYet,
    AwaitingResult(BetDetail),
    ResultAnnounced(BetResult),
}

#[derive(Clone, Copy, PartialEq, Eq, Structural, Debug)]
pub enum BetResult {
    Won(u64),
    Lost,
    Draw,
}

#[derive(Clone, Copy, PartialEq, Eq, Structural, Debug)]
pub struct BetDetail {
    pub amount: u64,
    pub bet_direction: BetDirection,
    /// When the bet was made, in milliseconds since the epoch.
    pub bet_made_at: u64,
}

#[derive(PartialEq, Eq, Hash, Clone, Copy, Structural, Debug)]
pub struct HotOrNotBetId {
    pub canister_id: u64,
    pub post_id: u64,
}

#[derive(Clone, Copy, PartialEq, Eq, Structural, Debug)]
pub struct AggregateStats {
    pub total_number_of_hot_bets: u64,
    pub total_number_of_not_bets: u64,
    pub total_amount_bet: u64,
}

#[derive(Clone, Copy, PartialEq, Eq, Structural, Debug)]
pub struct BetDetails {
    pub amount: u64,
    pub bet_direction: BetDirection,
}

pub struct RoomDetails {
    /// Bets keyed by the principal that made them.
    pub bets_made: OrdMap<BetDetails>,
}

pub struct SlotDetails {
    /// Rooms keyed by room id; ids are dense, starting at 1.
    pub room_details: OrdMap<RoomDetails>,
}

pub struct HotOrNotDetails {
    pub score: u64,
    pub upvotes: OrdMap<()>,
    pub downvotes: OrdMap<()>,
    pub aggregate_stats: AggregateStats,
    /// Slots keyed by slot id.
    pub slot_history: OrdMap<SlotDetails>,
}

impl RoomDetails {
    pub fn new() -> (r: RoomDetails)
        ensures
            r.bets_made.wf(),
            r.bets_made@ == Map::<u64, BetDetails>::empty(),
            r.bets_made.spec_len() == 0,
    {
        RoomDetails { bets_made: OrdMap::new() }
    }
}

impl SlotDetails {
    pub fn new() -> (r: SlotDetails)
        ensures
            r.room_details.wf(),
            r.room_details@ == Map::<u64, RoomDetails>::empty(),
            r.room_details.spec_len() == 0,
    {
        SlotDetails { room_details: OrdMap::new() }
    }
}

impl HotOrNotDetails {
    pub fn new() -> (r: HotOrNotDetails)
        ensures
            spec_hot_or_not_wf(r),
            r.score == 0,
            r.upvotes.wf(),
            r.upvotes.spec_len() == 0,
            r.downvotes.wf(),
            r.downvotes.spec_len() == 0,
            r.aggregate_stats == (AggregateStats {
                total_number_of_hot_bets: 0,
                total_number_of_not_bets: 0,
                total_amount_bet: 0,
            }),
            r.slot_history.wf(),
            r.slot_history@ == Map::<u64, SlotDetails>::empty(),
            r.slot_history.spec_len() == 0,
    {
        HotOrNotDetails {
            score: 0,
            upvotes: OrdMap::new(),
            downvotes: OrdMap::new(),
            aggregate_stats: AggregateStats {
                total_number_of_hot_bets: 0,
                total_number_of_not_bets: 0,
                total_amount_bet: 0,
            },
            slot_history: OrdMap::new(),
        }
    }
}

/// Principal `p` has a bet in room `r` of slot `s` of the ledger `h`.
pub open spec fn spec_bet_in(h: HotOrNotDetails, s: u64, r: u64, p: u64) -> bool {
    &&& h.slot_history@.contains_key(s)
    &&& h.slot_history@[s].room_details@.contains_key(r)
    &&& h.slot_history@[s].room_details@[r].bets_made@.contains_key(p)
}

/// Principal `p` has a bet somewhere in the slot `sd`.
pub open spec fn spec_slot_has_bet(sd: SlotDetails, p: u64) -> bool {
    exists|r: u64|
        #![auto]
        sd.room_details@.contains_key(r) && sd.room_details@[r].bets_made@.contains_key(p)
}

/// A room is well formed: its bet map is well formed and the room-capacity
/// ceiling holds.
pub open spec fn spec_room_wf(rd: RoomDetails) -> bool {
    &&& rd.bets_made.wf()
    &&& rd.bets_made.spec_len() <= MAX_BETS_PER_ROOM
}

/// A slot is well formed: it has at least one room, room ids are dense
/// (exactly 1 up to the number of rooms), every room is well formed, and
/// every room but the last is full.
pub open spec fn spec_slot_wf(sd: SlotDetails) -> bool {
    &&& sd.room_details.wf()
    &&& sd.room_details.spec_len() >= 1
    &&& forall|r: u64|
        sd.room_details@.contains_key(r) ==> 1 <= r <= sd.room_details.spec_len()
    &&& forall|r: u64|
        sd.room_details@.contains_key(r) ==> spec_room_wf(#[trigger] sd.room_details@[r])
    &&& forall|r: u64|
        sd.room_details@.contains_key(r) && r < sd.room_details.spec_len()
            ==> #[trigger] sd.room_details@[r].bets_made.spec_len() == MAX_BETS_PER_ROOM
}

/// Each principal holds at most one bet across all slots and rooms of `h`.
pub open spec fn spec_one_bet_per_principal(h: HotOrNotDetails) -> bool {
    forall|s1: u64, r1: u64, s2: u64, r2: u64, p: u64|
        #[trigger] spec_bet_in(h, s1, r1, p) && #[trigger] spec_bet_in(h, s2, r2, p) ==> s1 == s2
            && r1 == r2
}

/// Bound tying a slot's room count to the aggregate bet counters: all full
/// rooms plus the bets of the last room never outgrow the total number of
/// bets recorded.  (It keeps a fresh room id from overflowing.)
pub open spec fn spec_slot_room_bound(sd: SlotDetails, h: HotOrNotDetails) -> bool {
    sd.room_details.spec_len() > 0 ==> (MAX_BETS_PER_ROOM as int) * (sd.room_details.spec_len()
        - 1) + sd.room_details@[sd.room_details.spec_last_key()].bets_made.spec_len()
        <= h.aggregate_stats.total_number_of_hot_bets + h.aggregate_stats.total_number_of_not_bets
}

/// The whole betting ledger of a post is well formed.
pub open spec fn spec_hot_or_not_wf(h: HotOrNotDetails) -> bool {
    &&& h.slot_history.wf()
    &&& h.upvotes.wf()
    &&& h.downvotes.wf()
    &&& forall|s: u64|
        h.slot_history@.contains_key(s) ==> spec_slot_wf(#[trigger] h.slot_history@[s])
    &&& forall|s: u64|
        h.slot_history@.contains_key(s) ==> spec_slot_room_bound(
            #[trigger] h.slot_history@[s],
            h,
        )
    &&& spec_one_bet_per_principal(h)
}

impl Post {
    /// A post is well formed: its like set and, when present, its betting
    /// ledger are.
    pub open spec fn wf(self) -> bool {
        &&& self.likes.wf()
        &&& match self.hot_or_not_details {
            Some(h) => spec_hot_or_not_wf(h),
            None => true,
        }
    }

    /// Whole seconds elapsed between the post's creation and `now`.
    pub open spec fn spec_elapsed_secs(self, now: u64) -> int {
        (now - self.created_at) / 1000
    }

    /// Betting stays open through the whole 48-hour window, boundary second
    /// included.
    pub open spec fn spec_betting_open_at(self, now: u64) -> bool {
        self.spec_elapsed_secs(now) <= TOTAL_DURATION_OF_ALL_SLOTS_IN_SECONDS
    }

    /// The ongoing slot index derived from the clock (1-based).
    pub open spec fn spec_ongoing_slot_at(self, now: u64) -> int {
        self.spec_elapsed_secs(now) / (DURATION_OF_EACH_SLOT_IN_SECONDS as int) + 1
    }

    /// The room a bet arriving now would be offered: the last room of the
    /// ongoing slot, or room 1 when the slot has none yet.
    pub open spec fn spec_active_room_at(self, now: u64) -> u64 {
        spec_active_room_in_slot(self.hot_or_not_details, self.spec_ongoing_slot_at(now) as u64)
    }

    /// Bets currently in the room that `spec_active_room_at` names.
    pub open spec fn spec_active_room_participants_at(self, now: u64) -> nat {
        spec_room_participants_in_slot(
            self.hot_or_not_details,
            self.spec_ongoing_slot_at(now) as u64,
        )
    }

    /// `maker` already holds a bet somewhere on this post.
    pub open spec fn spec_has_bet(self, maker: u64) -> bool {
        match self.hot_or_not_details {
            Some(h) => exists|s: u64, r: u64| #[trigger] spec_bet_in(h, s, r, maker),
            None => false,
        }
    }

    /// What `get_hot_or_not_betting_status_for_this_post` answers.
    pub open spec fn spec_betting_status_at(self, now: u64, maker: u64) -> BettingStatus {
        if !self.spec_betting_open_at(now) {
            BettingStatus::BettingClosed
        } else {
            BettingStatus::BettingOpen {
                started_at: self.created_at,
                number_of_participants: self.spec_active_room_participants_at(now) as u8,
                ongoing_slot: self.spec_ongoing_slot_at(now) as u8,
                ongoing_room: self.spec_active_room_at(now),
                has_this_user_participated_in_this_post: if maker == ANONYMOUS_PRINCIPAL_ID {
                    None
                } else {
                    Some(self.spec_has_bet(maker))
                },
            }
        }
    }
}

pub open spec fn spec_active_room_in_slot(hod: Option<HotOrNotDetails>, s: u64) -> u64 {
    match hod {
        None => 1,
        Some(h) => if !h.slot_history@.contains_key(s) {
            1
        } else {
            let rooms = h.slot_history@[s].room_details;
            if rooms.spec_len() == 0 {
                1
            } else {
                rooms.spec_last_key()
            }
        },
    }
}

pub open spec fn spec_room_participants_in_slot(hod: Option<HotOrNotDetails>, s: u64) -> nat {
    match hod {
        None => 0,
        Some(h) => if !h.slot_history@.contains_key(s) {
            0
        } else {
            let rooms = h.slot_history@[s].room_details;
            if rooms.spec_len() == 0 {
                0
            } else {
                rooms@[rooms.spec_last_key()].bets_made.spec_len()
            }
        },
    }
}

impl Post {
    pub fn get_hot_or_not_betting_status_for_this_post(
        &self,
        current_time_when_request_being_made: u64,
        current_request_maker: u64,
    ) -> (r: BettingStatus)
        requires
            self.wf(),
            current_time_when_request_being_made >= self.created_at,
            current_request_maker != ANONYMOUS_PRINCIPAL_ID && self.spec_betting_open_at(
                current_time_when_request_being_made,
            ) ==> self.hot_or_not_details is Some,
        ensures
            r == self.spec_betting_status_at(
                current_time_when_request_being_made,
                current_request_maker,
            ),
    {
        let elapsed_secs = (current_time_when_request_being_made - self.created_at) / 1000;
        if elapsed_secs > TOTAL_DURATION_OF_ALL_SLOTS_IN_SECONDS {
            return BettingStatus::BettingClosed;
        }
        let currently_ongoing_slot_u64 = elapsed_secs / DURATION_OF_EACH_SLOT_IN_SECONDS + 1;
        let currently_ongoing_slot = currently_ongoing_slot_u64 as u8;
        let (ongoing_room, number_of_participants): (u64, u8) = match &self.hot_or_not_details {
            None => (1, 0),
            Some(h) => match h.slot_history.get(currently_ongoing_slot_u64) {
                None => (1, 0),
                Some(sd) => {
                    proof {
                        assert(spec_slot_wf(*sd));
                    }
                    match sd.room_details.last_entry() {
                        None => (1, 0),
                        Some(e) => {
                            proof {
                                assert(spec_room_wf(sd.room_details@[e.0]));
                            }
                            (e.0, e.1.bets_made.len() as u8)
                        },
                    }
                },
            },
        };
        let has_this_user_participated_in_this_post = if current_request_maker
            == ANONYMOUS_PRINCIPAL_ID {
            None
        } else {
            Some(self.has_this_principal_already_bet_on_this_post(current_request_maker))
        };
        BettingStatus::BettingOpen {
            started_at: self.created_at,
            number_of_participants,
            ongoing_slot: currently_ongoing_slot,
            ongoing_room,
            has_this_user_participated_in_this_post,
        }
    }

    pub fn has_this_principal_already_bet_on_this_post(&self, principal_making_bet: u64) -> (r:
        bool)
        requires
            self.wf(),
            self.hot_or_not_details is Some,
        ensures
            r == self.spec_has_bet(principal_making_bet),
    {
        let h = match &self.hot_or_not_details {
            Some(h) => h,
            None => {
                proof {
                    assert(false);
                }
                unreached()
            },
        };
        let slots = h.slot_history.entries();
        let n = slots.len();
        let mut i: usize = 0;
        while i < n
            invariant
                self.wf(),
                self.hot_or_not_details == Some(*h),
                spec_hot_or_not_wf(*h),
                n == slots@.len(),
                0 <= i <= n,
                forall|a: int|
                    0 <= a < slots@.len() ==> h.slot_history@.contains_key(#[trigger] slots@[a].0)
                        && h.slot_history@[slots@[a].0] == slots@[a].1,
                forall|s: u64|
                    h.slot_history@.contains_key(s) ==> exists|a: int|
                        0 <= a < slots@.len() && #[trigger] slots@[a].0 == s,
                forall|a: int|
                    0 <= a < i ==> !spec_slot_has_bet(#[trigger] slots@[a].1, principal_making_bet),
            decreases n - i,
        {
            let sd = &slots[i].1;
            proof {
                let s = slots@[i as int].0;
                assert(h.slot_history@.contains_key(s));
                assert(*sd == h.slot_history@[s]);
                assert(spec_slot_wf(*sd));
            }
            let rooms = sd.room_details.entries();
            let m = rooms.len();
            let mut j: usize = 0;
            while j < m
                invariant
                    self.wf(),
                    self.hot_or_not_details == Some(*h),
                    spec_hot_or_not_wf(*h),
                    n == slots@.len(),
                    0 <= i < n,
                    h.slot_history@.contains_key(slots@[i as int].0),
                    *sd == h.slot_history@[slots@[i as int].0],
                    spec_slot_wf(*sd),
                    m == rooms@.len(),
                    0 <= j <= m,
                    forall|b: int|
                        0 <= b < rooms@.len() ==> sd.room_details@.contains_key(
                            #[trigger] rooms@[b].0,
                        ) && sd.room_details@[rooms@[b].0] == rooms@[b].1,
                    forall|r: u64|
                        sd.room_details@.contains_key(r) ==> exists|b: int|
                            0 <= b < rooms@.len() && #[trigger] rooms@[b].0 == r,
                    forall|b: int|
                        0 <= b < j ==> !rooms@[b].1.bets_made@.contains_key(principal_making_bet),
                decreases m - j,
            {
                proof {
                    let r = rooms@[j as int].0;
                    assert(sd.room_details@.contains_key(r));
                    assert(sd.room_details@[r] == rooms@[j as int].1);
                    assert(spec_room_wf(sd.room_details@[r]));
                }
                if rooms[j].1.bets_made.contains_key(principal_making_bet) {
                    proof {
                        let s = slots@[i as int].0;
                        let r = rooms@[j as int].0;
                        assert(sd.room_details@[r].bets_made@.contains_key(principal_making_bet));
                        assert(spec_bet_in(*h, s, r, principal_making_bet));
                    }
                    return true;
                }
                j += 1;
            }
            proof {
                assert forall|r: u64|
                    sd.room_details@.contains_key(r) implies !sd.room_details@[r].bets_made@.contains_key(
                    principal_making_bet,
                ) by {
                    let b = choose|b: int|
                        0 <= b < rooms@.len() && #[trigger] rooms@[b].0 == r;
                    assert(rooms@[b].1 == sd.room_details@[r]);
                }
                assert(!spec_slot_has_bet(*sd, principal_making_bet));
            }
            i += 1;
        }
        proof {
            assert forall|s: u64, r: u64| !spec_bet_in(*h, s, r, principal_making_bet) by {
                if spec_bet_in(*h, s, r, principal_making_bet) {
                    let a = choose|a: int|
                        0 <= a < slots@.len() && #[trigger] slots@[a].0 == s;
                    assert(!spec_slot_has_bet(slots@[a].1, principal_making_bet));
                    assert(slots@[a].1.room_details@.contains_key(r)
                        && slots@[a].1.room_details@[r].bets_made@.contains_key(
                        principal_making_bet,
                    ));
                }
            }
        }
        false
    }
}

/// The rooms the ongoing slot held before the bet, as a map (empty when the
/// slot had not been opened yet).
pub open spec fn spec_old_rooms(h0: HotOrNotDetails, s: u64) -> Map<u64, RoomDetails> {
    if h0.slot_history@.contains_key(s) {
        h0.slot_history@[s].room_details@
    } else {
        Map::empty()
    }
}

/// The bets the target room held before the bet (empty when the room did not
/// exist yet).
pub open spec fn spec_old_bets(h0: HotOrNotDetails, s: u64, target: u64) -> Map<u64, BetDetails> {
    let rooms = spec_old_rooms(h0, s);
    if rooms.contains_key(target) {
        rooms[target].bets_made@
    } else {
        Map::empty()
    }
}

/// The ledger `h1` is `h0` with one bet by `caller` added to room `target`
/// of slot `s`, and the aggregate counters advanced accordingly.
pub open spec fn spec_ledger_bet_added(
    h0: HotOrNotDetails,
    h1: HotOrNotDetails,
    s: u64,
    target: u64,
    caller: u64,
    amount: u64,
    dir: BetDirection,
) -> bool {
    &&& h1.score == h0.score
    &&& h1.upvotes == h0.upvotes
    &&& h1.downvotes == h0.downvotes
    &&& h1.aggregate_stats.total_amount_bet == h0.aggregate_stats.total_amount_bet + amount
    &&& h1.aggregate_stats.total_number_of_hot_bets == h0.aggregate_stats.total_number_of_hot_bets
        + (if dir is Hot {
        1int
    } else {
        0int
    })
    &&& h1.aggregate_stats.total_number_of_not_bets == h0.aggregate_stats.total_number_of_not_bets
        + (if dir is Not {
        1int
    } else {
        0int
    })
    &&& forall|s2: u64|
        s2 != s ==> h1.slot_history@.contains_key(s2) == h0.slot_history@.contains_key(s2)
    &&& forall|s2: u64|
        s2 != s && h0.slot_history@.contains_key(s2) ==> h1.slot_history@[s2]
            == #[trigger] h0.slot_history@[s2]
    &&& h1.slot_history@.contains_key(s)
    &&& {
        let rooms1 = h1.slot_history@[s].room_details@;
        let rooms0 = spec_old_rooms(h0, s);
        &&& forall|r2: u64| r2 != target ==> rooms1.contains_key(r2) == rooms0.contains_key(r2)
        &&& forall|r2: u64|
            r2 != target && rooms0.contains_key(r2) ==> rooms1[r2] == #[trigger] rooms0[r2]
        &&& rooms1.contains_key(target)
        &&& rooms1[target].bets_made@ == spec_old_bets(h0, s, target).insert(
            caller,
            BetDetails { amount, bet_direction: dir },
        )
    }
}

/// The whole effect of a successfully placed bet on the post.
pub open spec fn spec_bet_placed(
    p0: Post,
    p1: Post,
    caller: u64,
    amount: u64,
    dir: BetDirection,
    now: u64,
) -> bool {
    let s = p0.spec_ongoing_slot_at(now) as u64;
    let target = spec_target_room(p0, now);
    &&& p1.id == p0.id
    &&& p1.is_nsfw == p0.is_nsfw
    &&& p1.description == p0.description
    &&& p1.hashtags == p0.hashtags
    &&& p1.video_uid == p0.video_uid
    &&& p1.status == p0.status
    &&& p1.created_at == p0.created_at
    &&& p1.likes == p0.likes
    &&& p1.share_count == p0.share_count
    &&& p1.view_stats == p0.view_stats
    &&& p1.homefeed_ranking_score == p0.homefeed_ranking_score
    &&& p1.creator_consent_for_inclusion_in_hot_or_not
        == p0.creator_consent_for_inclusion_in_hot_or_not
    &&& p0.hot_or_not_details is Some
    &&& p1.hot_or_not_details is Some
    &&& spec_ledger_bet_added(
        p0.hot_or_not_details->Some_0,
        p1.hot_or_not_details->Some_0,
        s,
        target,
        caller,
        amount,
        dir,
    )
}

/// The betting status a successful bet reports: read back from the updated
/// ledger's last slot and last room.
pub open spec fn spec_status_after_bet(p1: Post) -> BettingStatus {
    let h = p1.hot_or_not_details->Some_0;
    let s_last = h.slot_history.spec_last_key();
    let rooms = h.slot_history@[s_last].room_details;
    let r_last = rooms.spec_last_key();
    BettingStatus::BettingOpen {
        started_at: p1.created_at,
        number_of_participants: rooms@[r_last].bets_made.spec_len() as u8,
        ongoing_slot: s_last as u8,
        ongoing_room: r_last,
        has_this_user_participated_in_this_post: Some(true),
    }
}

impl Post {
    pub fn place_hot_or_not_bet(
        &mut self,
        api_caller: u64,
        bet_amount: u64,
        bet_direction: BetDirection,
        current_time_when_request_being_made: u64,
    ) -> (r: Result<BettingStatus, BetOnCurrentlyViewingPostError>)
        requires
            old(self).wf(),
            current_time_when_request_being_made >= old(self).created_at,
            old(self).hot_or_not_details is Some,
            old(self).hot_or_not_details->Some_0.aggregate_stats.total_amount_bet + bet_amount
                <= u64::MAX,
            old(self).hot_or_not_details->Some_0.aggregate_stats.total_number_of_hot_bets + 1
                <= u64::MAX,
            old(self).hot_or_not_details->Some_0.aggregate_stats.total_number_of_not_bets + 1
                <= u64::MAX,
        ensures
            final(self).wf(),
            ({
                let now = current_time_when_request_being_made;
                if !old(self).spec_betting_open_at(now) {
                    &&& r == Err::<BettingStatus, BetOnCurrentlyViewingPostError>(
                        BetOnCurrentlyViewingPostError::BettingClosed,
                    )
                    &&& *final(self) == *old(self)
                } else if api_caller == ANONYMOUS_PRINCIPAL_ID || old(self).spec_has_bet(
                    api_caller,
                ) {
                    &&& r == Err::<BettingStatus, BetOnCurrentlyViewingPostError>(
                        BetOnCurrentlyViewingPostError::UserAlreadyParticipatedInThisPost,
                    )
                    &&& *final(self) == *old(self)
                } else {
                    &&& spec_bet_placed(
                        *old(self),
                        *final(self),
                        api_caller,
                        bet_amount,
                        bet_direction,
                        now,
                    )
                    &&& r == Ok::<BettingStatus, BetOnCurrentlyViewingPostError>(
                        spec_status_after_bet(*final(self)),
                    )
                }
            }),
    {
        let now = current_time_when_request_being_made;
        let betting_status = self.get_hot_or_not_betting_status_for_this_post(now, api_caller);
        match betting_status {
            BettingStatus::BettingClosed => Err(BetOnCurrentlyViewingPostError::BettingClosed),
            BettingStatus::BettingOpen {
                ongoing_room,
                has_this_user_participated_in_this_post,
                ..
            } => {
                let already = match has_this_user_participated_in_this_post {
                    None => true,
                    Some(b) => b,
                };
                if already {
                    return Err(BetOnCurrentlyViewingPostError::UserAlreadyParticipatedInThisPost);
                }
                let ghost p0 = *self;
                let slot_u64 = (now - self.created_at) / 1000 / DURATION_OF_EACH_SLOT_IN_SECONDS
                    + 1;
                proof {
                    assert(slot_u64 == p0.spec_ongoing_slot_at(now));
                }
                let ghost h0 = p0.hot_or_not_details->Some_0;
                let ghost rooms0 = spec_old_rooms(h0, slot_u64);
                let ghost cnt = p0.spec_active_room_participants_at(now);
                let mut h = match self.hot_or_not_details.take() {
                    Some(h) => h,
                    None => unreached(),
                };
                let mut sd = match h.slot_history.remove(slot_u64) {
                    Some(sd) => sd,
                    None => SlotDetails::new(),
                };
                proof {
                    assert(sd.room_details@ == rooms0);
                    if h0.slot_history@.contains_key(slot_u64) {
                        assert(spec_slot_wf(h0.slot_history@[slot_u64]));
                        h0.slot_history@[slot_u64].room_details.lemma_key_bounds();
                        assert(ongoing_room == sd.room_details.spec_last_key());
                        assert(sd.room_details@.contains_key(ongoing_room));
                    }
                }
                let ghost len_rooms0 = sd.room_details.spec_len();
                let mut rd = match sd.room_details.remove(ongoing_room) {
                    Some(rd) => rd,
                    None => RoomDetails::new(),
                };
                let ghost bets0 = spec_old_bets(h0, slot_u64, ongoing_room);
                proof {
                    assert(rd.bets_made@ == bets0);
                    assert(cnt == rd.bets_made.spec_len());
                    assert(rd.bets_made.spec_len() <= MAX_BETS_PER_ROOM);
                    assert(!bets0.contains_key(api_caller)) by {
                        if bets0.contains_key(api_caller) {
                            assert(spec_bet_in(h0, slot_u64, ongoing_room, api_caller));
                        }
                    }
                }
                let target: u64;
                let ghost mut rd_target: RoomDetails;
                if rd.bets_made.len() < MAX_BETS_PER_ROOM {
                    rd.bets_made.insert(
                        api_caller,
                        BetDetails { amount: bet_amount, bet_direction },
                    );
                    proof {
                        rd_target = rd;
                    }
                    sd.room_details.insert(ongoing_room, rd);
                    target = ongoing_room;
                } else {
                    proof {
                        // the active room exists and is exactly full; the
                        // slot-room bound keeps the next room id in range
                        assert(h0.slot_history@.contains_key(slot_u64));
                        assert(spec_slot_room_bound(h0.slot_history@[slot_u64], h0));
                        assert((MAX_BETS_PER_ROOM as int) * (len_rooms0 - 1) + cnt
                            <= h0.aggregate_stats.total_number_of_hot_bets
                            + h0.aggregate_stats.total_number_of_not_bets);
                        assert(ongoing_room <= len_rooms0);
                        assert(ongoing_room < u64::MAX);
                    }
                    let mut new_rd = RoomDetails::new();
                    new_rd.bets_made.insert(
                        api_caller,
                        BetDetails { amount: bet_amount, bet_direction },
                    );
                    proof {
                        rd_target = new_rd;
                    }
                    sd.room_details.insert(ongoing_room, rd);
                    target = ongoing_room + 1;
                    sd.room_details.insert(target, new_rd);
                }
                let ghost sd1 = sd;
                h.slot_history.insert(slot_u64, sd);
                h.aggregate_stats.total_amount_bet = h.aggregate_stats.total_amount_bet
                    + bet_amount;
                match bet_direction {
                    BetDirection::Hot => {
                        h.aggregate_stats.total_number_of_hot_bets =
                        h.aggregate_stats.total_number_of_hot_bets + 1;
                    },
                    BetDirection::Not => {
                        h.aggregate_stats.total_number_of_not_bets =
                        h.aggregate_stats.total_number_of_not_bets + 1;
                    },
                }
                self.hot_or_not_details = Some(h);
                proof {
                    let h1 = self.hot_or_not_details->Some_0;
                    let s = slot_u64;
                    let rooms1 = sd1.room_details;
                    let len1 = rooms1.spec_len();

                    assert(h1.slot_history@[s] == sd1);
                    assert(rooms1@.contains_key(target));
                    assert(rooms1@[target] == rd_target);
                    if cnt < MAX_BETS_PER_ROOM {
                        assert(target == ongoing_room);
                        assert(spec_old_bets(h0, s, target) == bets0);
                    } else {
                        assert(!rooms0.contains_key(target));
                    }
                    assert(rd_target.bets_made@ == spec_old_bets(h0, s, target).insert(
                        api_caller,
                        BetDetails { amount: bet_amount, bet_direction },
                    ));
                    assert(spec_bet_placed(p0, *self, api_caller, bet_amount, bet_direction, now));

                    // --- well-formedness of the updated slot ---
                    if h0.slot_history@.contains_key(s) {
                        assert(len_rooms0 >= 1);
                        h0.slot_history@[s].room_details.lemma_key_bounds();
                        assert(ongoing_room >= len_rooms0);
                        assert(ongoing_room == len_rooms0);
                    }
                    rooms1.lemma_key_bounds();
                    assert(spec_slot_wf(sd1)) by {
                        assert forall|r2: u64| rooms1@.contains_key(r2) implies 1 <= r2 <= len1 by {
                            if r2 != target {
                                assert(rooms0.contains_key(r2));
                                assert(1 <= r2 <= len_rooms0);
                            }
                        }
                        assert forall|r2: u64| rooms1@.contains_key(r2) implies spec_room_wf(
                            #[trigger] rooms1@[r2],
                        ) by {
                            if r2 != target {
                                assert(rooms1@[r2] == rooms0[r2]);
                                assert(spec_room_wf(h0.slot_history@[s].room_details@[r2]));
                            }
                        }
                        assert forall|r2: u64|
                            rooms1@.contains_key(r2) && r2 < len1 implies #[trigger] rooms1@[r2].bets_made.spec_len()
                            == MAX_BETS_PER_ROOM by {
                            if r2 != target {
                                assert(rooms1@[r2] == rooms0[r2]);
                                if cnt >= MAX_BETS_PER_ROOM && r2 == ongoing_room {
                                    assert(rooms0[r2].bets_made.spec_len() == cnt);
                                } else {
                                    assert(r2 < len_rooms0);
                                    assert(h0.slot_history@[s].room_details@[r2].bets_made.spec_len()
                                        == MAX_BETS_PER_ROOM);
                                }
                            } else {
                                if cnt < MAX_BETS_PER_ROOM {
                                    assert(target == ongoing_room);
                                    if h0.slot_history@.contains_key(s) {
                                        assert(target == len_rooms0 && len1 == len_rooms0);
                                        assert(!(r2 < len1));
                                    } else {
                                        assert(target == 1 && len1 == 1);
                                    }
                                } else {
                                    assert(target == len_rooms0 + 1 && len1 == len_rooms0 + 1);
                                    assert(!(r2 < len1));
                                }
                            }
                        }
                    }

                    // --- well-formedness of the whole ledger ---
                    assert forall|s2: u64| h1.slot_history@.contains_key(s2) implies spec_slot_wf(
                        #[trigger] h1.slot_history@[s2],
                    ) by {
                        if s2 != s {
                            assert(h1.slot_history@[s2] == h0.slot_history@[s2]);
                            assert(spec_slot_wf(h0.slot_history@[s2]));
                        }
                    }
                    let ghost big0 = h0.aggregate_stats.total_number_of_hot_bets
                        + h0.aggregate_stats.total_number_of_not_bets;
                    let ghost big1 = h1.aggregate_stats.total_number_of_hot_bets
                        + h1.aggregate_stats.total_number_of_not_bets;
                    assert(big1 == big0 + 1);
                    assert forall|s2: u64|
                        h1.slot_history@.contains_key(s2) implies spec_slot_room_bound(
                        #[trigger] h1.slot_history@[s2],
                        h1,
                    ) by {
                        if s2 != s {
                            assert(h1.slot_history@[s2] == h0.slot_history@[s2]);
                            assert(spec_slot_room_bound(h0.slot_history@[s2], h0));
                        } else {
                            assert(rooms1.spec_last_key() == target) by {
                                assert(rooms1@.contains_key(target));
                                if h0.slot_history@.contains_key(s) {
                                    assert forall|r2: u64|
                                        rooms1@.contains_key(r2) implies r2 <= target by {
                                        if r2 != target {
                                            assert(rooms0.contains_key(r2));
                                            assert(r2 <= ongoing_room);
                                        }
                                    }
                                }
                            }
                            assert(rooms1@[rooms1.spec_last_key()].bets_made.spec_len() == (
                            if cnt < MAX_BETS_PER_ROOM {
                                cnt + 1
                            } else {
                                1nat
                            }));
                            if h0.slot_history@.contains_key(s) {
                                assert(spec_slot_room_bound(h0.slot_history@[s], h0));
                                assert((MAX_BETS_PER_ROOM as int) * (len_rooms0 - 1) + cnt
                                    <= big0);
                            }
                        }
                    }
                    // --- one bet per principal ---
                    assert forall|s2: u64, r2: u64, p: u64|
                        #[trigger] spec_bet_in(h1, s2, r2, p) implies (p == api_caller && s2 == s
                        && r2 == target) || spec_bet_in(h0, s2, r2, p) by {
                        if s2 != s {
                            assert(h1.slot_history@[s2] == h0.slot_history@[s2]);
                        } else {
                            if r2 != target {
                                assert(rooms1@[r2] == rooms0[r2]);
                                assert(h0.slot_history@.contains_key(s));
                            } else {
                                if p != api_caller {
                                    assert(bets0.contains_key(p));
                                    assert(rooms0.contains_key(target));
                                    assert(h0.slot_history@.contains_key(s));
                                }
                            }
                        }
                    }
                    assert(spec_one_bet_per_principal(h1)) by {
                        assert forall|s1: u64, r1: u64, s2: u64, r2: u64, p: u64|
                            #[trigger] spec_bet_in(h1, s1, r1, p) && #[trigger] spec_bet_in(
                            h1,
                            s2,
                            r2,
                            p,
                        ) implies s1 == s2 && r1 == r2 by {
                            if p == api_caller {
                                assert(!spec_bet_in(h0, s1, r1, p));
                                assert(!spec_bet_in(h0, s2, r2, p));
                            } else {
                                assert(spec_bet_in(h0, s1, r1, p) && spec_bet_in(h0, s2, r2, p));
                            }
                        }
                    }
                    assert(spec_hot_or_not_wf(h1));
                    assert(self.wf());
                }
                let h_ref = match &self.hot_or_not_details {
                    Some(h_ref) => h_ref,
                    None => unreached(),
                };
                let (last_slot_id, last_sd) = match h_ref.slot_history.last_entry() {
                    Some(e) => (e.0, &e.1),
                    None => unreached(),
                };
                proof {
                    assert(h_ref.slot_history@.contains_key(last_slot_id));
                    assert(*last_sd == h_ref.slot_history@[last_slot_id]);
                    assert(spec_slot_wf(*last_sd));
                }
                let (last_room_id, last_rd) = match last_sd.room_details.last_entry() {
                    Some(e) => (e.0, &e.1),
                    None => unreached(),
                };
                proof {
                    assert(spec_room_wf(last_sd.room_details@[last_room_id]));
                }
                let number_of_participants = last_rd.bets_made.len() as u8;
                Ok(BettingStatus::BettingOpen {
                    started_at: self.created_at,
                    number_of_participants,
                    ongoing_slot: last_slot_id as u8,
                    ongoing_room: last_room_id,
                    has_this_user_participated_in_this_post: Some(true),
                })
            },
        }
    }
}

/// After a placement per `spec_bet_placed`, the bets of the ledger are the
/// old ones plus exactly the caller's new bet, values untouched elsewhere.
pub proof fn lemma_bets_after_placement(
    p0: Post,
    p1: Post,
    caller: u64,
    amount: u64,
    dir: BetDirection,
    now: u64,
)
    requires
        p0.wf(),
        p0.spec_betting_open_at(now),
        p0.hot_or_not_details is Some,
        !p0.spec_has_bet(caller),
        spec_bet_placed(p0, p1, caller, amount, dir, now),
    ensures
        ({
            let h0 = p0.hot_or_not_details->Some_0;
            let h1 = p1.hot_or_not_details->Some_0;
            let s = p0.spec_ongoing_slot_at(now) as u64;
            let target = spec_target_room(p0, now);
            &&& forall|s2: u64, r2: u64, p: u64|
                #[trigger] spec_bet_in(h1, s2, r2, p) <==> ((p == caller && s2 == s && r2
                    == target) || spec_bet_in(h0, s2, r2, p))
            &&& forall|s2: u64, r2: u64, p: u64|
                #[trigger] spec_bet_in(h0, s2, r2, p)
                    ==> h1.slot_history@[s2].room_details@[r2].bets_made@[p]
                    == h0.slot_history@[s2].room_details@[r2].bets_made@[p]
            &&& h1.slot_history@[s].room_details@[target].bets_made@[caller] == (BetDetails {
                amount,
                bet_direction: dir,
            })
        }),
{
    let h0 = p0.hot_or_not_details->Some_0;
    let h1 = p1.hot_or_not_details->Some_0;
    let s = p0.spec_ongoing_slot_at(now) as u64;
    let target = spec_target_room(p0, now);
    let rooms0 = spec_old_rooms(h0, s);
    let cnt = p0.spec_active_room_participants_at(now);
    if cnt >= MAX_BETS_PER_ROOM {
        // the active room is the last room; the fresh room sits above every
        // old room id, so it is no old room
        assert(h0.slot_history@.contains_key(s));
        h0.slot_history@[s].room_details.lemma_key_bounds();
        assert(!rooms0.contains_key(target));
    }
    assert forall|s2: u64, r2: u64, p: u64| #[trigger] spec_bet_in(h1, s2, r2, p) implies ((p
        == caller && s2 == s && r2 == target) || spec_bet_in(h0, s2, r2, p)) by {
        if s2 != s {
            assert(h1.slot_history@[s2] == h0.slot_history@[s2]);
        } else {
            if r2 != target {
                assert(h1.slot_history@[s].room_details@[r2] == rooms0[r2]);
                assert(h0.slot_history@.contains_key(s));
            } else {
                if p != caller {
                    assert(spec_old_bets(h0, s, target).contains_key(p));
                    assert(rooms0.contains_key(target));
                    assert(h0.slot_history@.contains_key(s));
                }
            }
        }
    }
    assert forall|s2: u64, r2: u64, p: u64| #[trigger] spec_bet_in(h0, s2, r2, p) implies
        spec_bet_in(h1, s2, r2, p) && h1.slot_history@[s2].room_details@[r2].bets_made@[p]
        == h0.slot_history@[s2].room_details@[r2].bets_made@[p] by {
        if s2 != s {
            assert(h1.slot_history@[s2] == h0.slot_history@[s2]);
        } else {
            assert(h0.slot_history@.contains_key(s2));
            if r2 != target {
                assert(h1.slot_history@[s].room_details@[r2] == rooms0[r2]);
            } else {
                assert(rooms0.contains_key(target));
                assert(spec_old_bets(h0, s, target) == rooms0[target].bets_made@);
                assert(p != caller) by {
                    if p == caller {
                        assert(spec_bet_in(h0, s2, r2, caller));
                    }
                }
            }
        }
    }
}

/// The room a successful bet lands in: the active room while it has space,
/// else the next one.
pub open spec fn spec_target_room(p0: Post, now: u64) -> u64 {
    if p0.spec_active_room_participants_at(now) < MAX_BETS_PER_ROOM {
        p0.spec_active_room_at(now)
    } else {
        (p0.spec_active_room_at(now) + 1) as u64
    }
}

} // verus!
