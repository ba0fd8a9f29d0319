//! Closing a slot: every room of the (post, slot) pair is tabulated
//! independently.  The side with the larger pot wins; winners are paid 180%
//! of their stake, the post's creator collects the remaining 20%, an exactly
//! split room is a draw and refunds every stake.  A "bet settled" message is
//! produced for every participant; a room already carrying an outcome is
//! skipped, which makes tabulation idempotent.

use vstd::prelude::*;

use crate::hot_or_not::BetResult;
use crate::omap::OrdMap;
use crate::stable_kv::{stable_kv_contents, Quad};
use crate::state::{
    spec_bet_key, spec_direction_code, spec_outcome_code, spec_post_principal_key, spec_room_key,
    spec_slot_key, spec_tree_bet_details_of, spec_tree_bet_of, CanisterData,
    RoomBetPossibleOutcomes,
};

verus! {

/// One bet of a room, as read back from the side indices.
#[derive(Clone, Copy, PartialEq, Eq, Structural, Debug)]
pub struct RoomBetInfo {
    pub bet_maker_principal_id: u64,
    pub bet_maker_canister_id: u64,
    pub amount: u64,
    /// 0 is hot, 1 is not.
    pub direction_code: u64,
}

/// The outbound "bet settled" message owed to one participant's actor.
#[derive(Clone, Copy, PartialEq, Eq, Structural, Debug)]
pub struct BetSettled {
    pub bet_maker_canister_id: u64,
    pub bet_maker_principal_id: u64,
    pub post_id: u64,
    pub slot_id: u64,
    pub room_id: u64,
    pub outcome: BetResult,
    pub payout_amount: u64,
}

pub open spec fn spec_hot_pot(bets: Seq<RoomBetInfo>) -> int
    decreases bets.len(),
{
    if bets.len() == 0 {
        0
    } else {
        spec_hot_pot(bets.drop_last()) + if bets.last().direction_code == 0 {
            bets.last().amount as int
        } else {
            0
        }
    }
}

pub open spec fn spec_not_pot(bets: Seq<RoomBetInfo>) -> int
    decreases bets.len(),
{
    if bets.len() == 0 {
        0
    } else {
        spec_not_pot(bets.drop_last()) + if bets.last().direction_code != 0 {
            bets.last().amount as int
        } else {
            0
        }
    }
}

/// The side contributing the larger pot wins; exact equality is a draw.
pub open spec fn spec_room_winner(bets: Seq<RoomBetInfo>) -> RoomBetPossibleOutcomes {
    if spec_hot_pot(bets) > spec_not_pot(bets) {
        RoomBetPossibleOutcomes::HotWon
    } else if spec_not_pot(bets) > spec_hot_pot(bets) {
        RoomBetPossibleOutcomes::NotWon
    } else {
        RoomBetPossibleOutcomes::Draw
    }
}

pub open spec fn spec_bet_won(winner: RoomBetPossibleOutcomes, b: RoomBetInfo) -> bool {
    ||| (winner is HotWon && b.direction_code == 0)
    ||| (winner is NotWon && b.direction_code != 0)
}

/// What one bet pays out: 180% of the stake on a win, the stake back on a
/// draw, nothing on a loss.
pub open spec fn spec_payout_for(winner: RoomBetPossibleOutcomes, b: RoomBetInfo) -> int {
    if winner is Draw {
        b.amount as int
    } else if spec_bet_won(winner, b) {
        9 * b.amount / 5
    } else {
        0
    }
}

/// What one bet earns the post's creator: 20% of a doubled winning stake.
pub open spec fn spec_fee_for(winner: RoomBetPossibleOutcomes, b: RoomBetInfo) -> int {
    if spec_bet_won(winner, b) {
        b.amount as int / 5
    } else {
        0
    }
}

pub open spec fn spec_outcome_for(winner: RoomBetPossibleOutcomes, b: RoomBetInfo) -> BetResult {
    if winner is Draw {
        BetResult::Draw
    } else if spec_bet_won(winner, b) {
        BetResult::Won((9 * b.amount / 5) as u64)
    } else {
        BetResult::Lost
    }
}

pub open spec fn spec_total_payout(bets: Seq<RoomBetInfo>, winner: RoomBetPossibleOutcomes) -> int
    decreases bets.len(),
{
    if bets.len() == 0 {
        0
    } else {
        spec_total_payout(bets.drop_last(), winner) + spec_payout_for(winner, bets.last())
    }
}

pub open spec fn spec_total_fee(bets: Seq<RoomBetInfo>, winner: RoomBetPossibleOutcomes) -> int
    decreases bets.len(),
{
    if bets.len() == 0 {
        0
    } else {
        spec_total_fee(bets.drop_last(), winner) + spec_fee_for(winner, bets.last())
    }
}

/// Conservation of stakes in a drawn room: the refunds add up to exactly
/// the room's total pot, and the creator collects nothing.
pub proof fn lemma_draw_room_conserves_pot(bets: Seq<RoomBetInfo>)
    requires
        spec_room_winner(bets) is Draw,
    ensures
        spec_total_payout(bets, RoomBetPossibleOutcomes::Draw) == spec_hot_pot(bets)
            + spec_not_pot(bets),
        spec_total_fee(bets, RoomBetPossibleOutcomes::Draw) == 0,
{
    lemma_draw_payout_is_pot(bets);
}

proof fn lemma_draw_payout_is_pot(bets: Seq<RoomBetInfo>)
    ensures
        spec_total_payout(bets, RoomBetPossibleOutcomes::Draw) == spec_hot_pot(bets)
            + spec_not_pot(bets),
        spec_total_fee(bets, RoomBetPossibleOutcomes::Draw) == 0,
    decreases bets.len(),
{
    if bets.len() > 0 {
        lemma_draw_payout_is_pot(bets.drop_last());
    }
}

/// In a decided room, payouts and creator fees together return exactly the
/// doubled winning pot, up to one token of rounding loss per winning bet;
/// the losing pot is withheld entirely.
pub proof fn lemma_decided_room_payout_bounds(bets: Seq<RoomBetInfo>)
    requires
        !(spec_room_winner(bets) is Draw),
    ensures
        ({
            let winner = spec_room_winner(bets);
            let winning_pot = if winner is HotWon {
                spec_hot_pot(bets)
            } else {
                spec_not_pot(bets)
            };
            &&& spec_total_payout(bets, winner) + spec_total_fee(bets, winner) <= 2 * winning_pot
            &&& spec_total_payout(bets, winner) + spec_total_fee(bets, winner) >= 2 * winning_pot
                - bets.len()
        }),
{
    lemma_decided_payout_rec(bets, spec_room_winner(bets));
}

proof fn lemma_decided_payout_rec(bets: Seq<RoomBetInfo>, winner: RoomBetPossibleOutcomes)
    requires
        !(winner is Draw),
        !(winner is BetOngoing),
    ensures
        ({
            let winning_pot = if winner is HotWon {
                spec_hot_pot(bets)
            } else {
                spec_not_pot(bets)
            };
            &&& spec_total_payout(bets, winner) + spec_total_fee(bets, winner) <= 2 * winning_pot
            &&& spec_total_payout(bets, winner) + spec_total_fee(bets, winner) >= 2 * winning_pot
                - bets.len()
        }),
    decreases bets.len(),
{
    if bets.len() > 0 {
        lemma_decided_payout_rec(bets.drop_last(), winner);
        let b = bets.last();
        if spec_bet_won(winner, b) {
            let a = b.amount as int;
            vstd::arithmetic::div_mod::lemma_fundamental_div_mod(9 * a, 5);
            vstd::arithmetic::div_mod::lemma_fundamental_div_mod(a, 5);
            assert(2 * a - 1 <= 9 * a / 5 + a / 5 <= 2 * a);
        }
    }
}

/// Settles one room's bets: names the winning side and produces one
/// settlement message per bet, in the bets' given order, along with the
/// creator's fee.
pub fn settle_room(post_id: u64, slot_id: u64, room_id: u64, bets: &Vec<RoomBetInfo>) -> (r: (
    Vec<BetSettled>,
    RoomBetPossibleOutcomes,
    u128,
))
    ensures
        r.1 == spec_room_winner(bets@),
        r.2 == spec_total_fee(bets@, r.1),
        r.2 <= bets@.len() * 0x3333_3333_3333_3333u128,
        r.0@.len() == bets@.len(),
        forall|i: int|
            0 <= i < bets@.len() ==> r.0@[i] == (BetSettled {
                bet_maker_canister_id: bets@[i].bet_maker_canister_id,
                bet_maker_principal_id: bets@[i].bet_maker_principal_id,
                post_id,
                slot_id,
                room_id,
                outcome: spec_outcome_for(r.1, bets@[i]),
                payout_amount: spec_payout_for(r.1, bets@[i]) as u64,
            }),
{
    let n = bets.len();
    let mut hot_pot: u128 = 0;
    let mut not_pot: u128 = 0;
    let mut i: usize = 0;
    while i < n
        invariant
            n == bets@.len(),
            0 <= i <= n,
            hot_pot == spec_hot_pot(bets@.take(i as int)),
            not_pot == spec_not_pot(bets@.take(i as int)),
            hot_pot <= i * 0xffff_ffff_ffff_ffffu128,
            not_pot <= i * 0xffff_ffff_ffff_ffffu128,
        decreases n - i,
    {
        proof {
            assert(bets@.take(i + 1).drop_last() =~= bets@.take(i as int));
            assert(bets@.take(i + 1).last() == bets@[i as int]);
        }
        if bets[i].direction_code == 0 {
            hot_pot = hot_pot + (bets[i].amount as u128);
        } else {
            not_pot = not_pot + (bets[i].amount as u128);
        }
        i += 1;
    }
    proof {
        assert(bets@.take(n as int) =~= bets@);
    }
    let winner = if hot_pot > not_pot {
        RoomBetPossibleOutcomes::HotWon
    } else if not_pot > hot_pot {
        RoomBetPossibleOutcomes::NotWon
    } else {
        RoomBetPossibleOutcomes::Draw
    };
    let mut msgs: Vec<BetSettled> = Vec::new();
    let mut fee: u128 = 0;
    let mut j: usize = 0;
    while j < n
        invariant
            n == bets@.len(),
            0 <= j <= n,
            winner == spec_room_winner(bets@),
            !(winner is BetOngoing),
            fee == spec_total_fee(bets@.take(j as int), winner),
            fee <= j * 0x3333_3333_3333_3333u128,
            msgs@.len() == j,
            forall|i2: int|
                0 <= i2 < j ==> msgs@[i2] == (BetSettled {
                    bet_maker_canister_id: bets@[i2].bet_maker_canister_id,
                    bet_maker_principal_id: bets@[i2].bet_maker_principal_id,
                    post_id,
                    slot_id,
                    room_id,
                    outcome: spec_outcome_for(winner, bets@[i2]),
                    payout_amount: spec_payout_for(winner, bets@[i2]) as u64,
                }),
        decreases n - j,
    {
        proof {
            assert(bets@.take(j + 1).drop_last() =~= bets@.take(j as int));
            assert(bets@.take(j + 1).last() == bets@[j as int]);
        }
        let b = bets[j];
        let won = match winner {
            RoomBetPossibleOutcomes::HotWon => b.direction_code == 0,
            RoomBetPossibleOutcomes::NotWon => b.direction_code != 0,
            RoomBetPossibleOutcomes::Draw => false,
            RoomBetPossibleOutcomes::BetOngoing => false,
        };
        let is_draw = match winner {
            RoomBetPossibleOutcomes::Draw => true,
            _ => false,
        };
        let (outcome, payout_amount): (BetResult, u64) = if is_draw {
            (BetResult::Draw, b.amount)
        } else if won {
            let p = 9u128 * (b.amount as u128) / 5;
            proof {
                vstd::arithmetic::div_mod::lemma_div_is_ordered(
                    b.amount as int,
                    u64::MAX as int,
                    5,
                );
            }
            fee = fee + (b.amount as u128) / 5;
            (BetResult::Won(p as u64), p as u64)
        } else {
            (BetResult::Lost, 0)
        };
        msgs.push(
            BetSettled {
                bet_maker_canister_id: b.bet_maker_canister_id,
                bet_maker_principal_id: b.bet_maker_principal_id,
                post_id,
                slot_id,
                room_id,
                outcome,
                payout_amount,
            },
        );
        j += 1;
    }
    proof {
        assert(bets@.take(n as int) =~= bets@);
    }
    (msgs, winner, fee)
}

/// The sequence `s` lists exactly the side-index bets of room
/// `(post, slot, room)`, in increasing principal order.
pub open spec fn spec_room_bets(
    bets_contents: Map<Quad, Quad>,
    post: u64,
    slot: u64,
    room: u64,
    s: Seq<RoomBetInfo>,
) -> bool {
    &&& forall|i: int, j: int|
        0 <= i < j < s.len() ==> s[i].bet_maker_principal_id < s[j].bet_maker_principal_id
    &&& forall|i: int|
        0 <= i < s.len() ==> {
            let k = (post, slot, room, (#[trigger] s[i]).bet_maker_principal_id);
            &&& bets_contents.contains_key(k)
            &&& s[i].amount == bets_contents[k].0
            &&& s[i].direction_code == bets_contents[k].1
            &&& s[i].bet_maker_canister_id == bets_contents[k].2
        }
    &&& forall|pr: u64|
        #[trigger] bets_contents.contains_key((post, slot, room, pr)) ==> exists|i: int|
            0 <= i < s.len() && s[i].bet_maker_principal_id == pr
}

/// The winner a stored outcome code names.
pub open spec fn spec_winner_of_code(c: u64) -> RoomBetPossibleOutcomes {
    if c == 1 {
        RoomBetPossibleOutcomes::HotWon
    } else if c == 2 {
        RoomBetPossibleOutcomes::NotWon
    } else if c == 3 {
        RoomBetPossibleOutcomes::Draw
    } else {
        RoomBetPossibleOutcomes::BetOngoing
    }
}

fn outcome_code(w: RoomBetPossibleOutcomes) -> (r: u64)
    ensures
        r == spec_outcome_code(w),
{
    match w {
        RoomBetPossibleOutcomes::BetOngoing => 0,
        RoomBetPossibleOutcomes::HotWon => 1,
        RoomBetPossibleOutcomes::NotWon => 2,
        RoomBetPossibleOutcomes::Draw => 3,
    }
}

/// The room side entries after one slot's tabulation: the keys are
/// untouched, rooms of other slots and already-decided rooms keep their
/// entries, and each previously undecided room of the slot keeps its
/// aggregates and now carries the outcome code of its recorded bets'
/// winner.
pub open spec fn spec_slot_rooms_tabulated(
    rooms0: Map<Quad, Quad>,
    rooms1: Map<Quad, Quad>,
    bets0: Map<Quad, Quad>,
    post_id: u64,
    slot_id: u64,
) -> bool {
    &&& forall|k: Quad| rooms1.contains_key(k) == rooms0.contains_key(k)
    &&& forall|k: Quad|
        #[trigger] rooms0.contains_key(k) && !(k.0 == post_id && k.1 == slot_id && k.3 == 0
            && rooms0[k].3 == 0) ==> rooms1[k] == rooms0[k]
    &&& forall|k: Quad|
        #[trigger] rooms0.contains_key(k) && k.0 == post_id && k.1 == slot_id && k.3 == 0
            && rooms0[k].3 == 0 ==> {
            let v0 = rooms0[k];
            let v1 = rooms1[k];
            &&& v1.0 == v0.0 && v1.1 == v0.1 && v1.2 == v0.2
            &&& exists|bets: Seq<RoomBetInfo>|
                spec_room_bets(bets0, post_id, slot_id, k.2, bets) && v1.3 == spec_outcome_code(
                    spec_room_winner(bets),
                )
        }
}

/// Every settlement of `msgs` belongs to a previously undecided room of the
/// slot, names a recorded bet, and carries the outcome and payout that the
/// room's recorded winner fixes for that bet.
pub open spec fn spec_slot_msgs_sound(
    rooms0: Map<Quad, Quad>,
    rooms1: Map<Quad, Quad>,
    bets0: Map<Quad, Quad>,
    post_id: u64,
    slot_id: u64,
    msgs: Seq<BetSettled>,
) -> bool {
    forall|i: int|
        0 <= i < msgs.len() ==> {
            let m = #[trigger] msgs[i];
            let bk = (post_id, slot_id, m.room_id, m.bet_maker_principal_id);
            let rk = (post_id, slot_id, m.room_id, 0u64);
            let bet = RoomBetInfo {
                bet_maker_principal_id: m.bet_maker_principal_id,
                bet_maker_canister_id: bets0[bk].2,
                amount: bets0[bk].0,
                direction_code: bets0[bk].1,
            };
            &&& m.post_id == post_id
            &&& m.slot_id == slot_id
            &&& bets0.contains_key(bk)
            &&& rooms0.contains_key(rk)
            &&& rooms0[rk].3 == 0
            &&& m.bet_maker_canister_id == bets0[bk].2
            &&& m.outcome == spec_outcome_for(spec_winner_of_code(rooms1[rk].3), bet)
            &&& m.payout_amount == spec_payout_for(spec_winner_of_code(rooms1[rk].3), bet) as u64
        }
}

/// Every recorded bet of a previously undecided room of the slot is
/// settled by some message of `msgs`.
pub open spec fn spec_slot_msgs_complete(
    rooms0: Map<Quad, Quad>,
    bets0: Map<Quad, Quad>,
    post_id: u64,
    slot_id: u64,
    msgs: Seq<BetSettled>,
) -> bool {
    forall|k: Quad|
        #[trigger] bets0.contains_key(k) && k.0 == post_id && k.1 == slot_id
            && rooms0.contains_key((post_id, slot_id, k.2, 0)) && rooms0[(
            post_id,
            slot_id,
            k.2,
            0,
        )].3 == 0 ==> exists|i: int|
            0 <= i < msgs.len() && (#[trigger] msgs[i]).room_id == k.2
                && msgs[i].bet_maker_principal_id == k.3
}

/// The creator's fee one settlement carries: a fifth of the stake of a
/// winning bet, read back from the bet side index; nothing otherwise.
pub open spec fn spec_fee_of_msg(bets0: Map<Quad, Quad>, m: BetSettled) -> int {
    if m.outcome is Won {
        bets0[(m.post_id, m.slot_id, m.room_id, m.bet_maker_principal_id)].0 as int / 5
    } else {
        0
    }
}

/// The creator's total fee a settlement batch carries.
pub open spec fn spec_fee_of_msgs(bets0: Map<Quad, Quad>, msgs: Seq<BetSettled>) -> int
    decreases msgs.len(),
{
    if msgs.len() == 0 {
        0
    } else {
        spec_fee_of_msgs(bets0, msgs.drop_last()) + spec_fee_of_msg(bets0, msgs.last())
    }
}

/// A balance after a credit, saturating at the balance type's ceiling.
pub open spec fn spec_saturating_credit(balance: u64, credit: int) -> u64
    recommends
        credit >= 0,
{
    if balance + credit > u64::MAX {
        u64::MAX
    } else {
        (balance + credit) as u64
    }
}

/// A settlement batch never carries a negative fee.
pub proof fn lemma_fee_of_msgs_nonneg(bets0: Map<Quad, Quad>, msgs: Seq<BetSettled>)
    ensures
        spec_fee_of_msgs(bets0, msgs) >= 0,
    decreases msgs.len(),
{
    broadcast use vstd::arithmetic::div_mod::lemma_div_basics_4;

    if msgs.len() > 0 {
        lemma_fee_of_msgs_nonneg(bets0, msgs.drop_last());
    }
}

/// Fees add up over concatenated settlement batches.
pub proof fn lemma_fee_of_msgs_concat(
    bets0: Map<Quad, Quad>,
    left: Seq<BetSettled>,
    right: Seq<BetSettled>,
)
    ensures
        spec_fee_of_msgs(bets0, left + right) == spec_fee_of_msgs(bets0, left) + spec_fee_of_msgs(
            bets0,
            right,
        ),
    decreases right.len(),
{
    if right.len() == 0 {
        assert(left + right =~= left);
    } else {
        lemma_fee_of_msgs_concat(bets0, left, right.drop_last());
        assert((left + right).drop_last() =~= left + right.drop_last());
        assert((left + right).last() == right.last());
    }
}

/// Two saturating credits in a row equal one credit of the summed fees.
pub proof fn lemma_saturating_credit_compose(balance: u64, credit1: int, credit2: int)
    requires
        credit1 >= 0,
        credit2 >= 0,
    ensures
        spec_saturating_credit(spec_saturating_credit(balance, credit1), credit2)
            == spec_saturating_credit(balance, credit1 + credit2),
{
}

/// The settlements of one room, valued against the bet side index, carry
/// exactly the room's creator fee.
proof fn lemma_room_fee_matches(
    bets0: Map<Quad, Quad>,
    base: Seq<BetSettled>,
    room_msgs: Seq<BetSettled>,
    bets: Seq<RoomBetInfo>,
    winner: RoomBetPossibleOutcomes,
    post_id: u64,
    slot_id: u64,
    room_id: u64,
    w: int,
)
    requires
        0 <= w <= room_msgs.len(),
        room_msgs.len() == bets.len(),
        !(winner is BetOngoing),
        forall|i: int|
            0 <= i < bets.len() ==> #[trigger] room_msgs[i] == (BetSettled {
                bet_maker_canister_id: bets[i].bet_maker_canister_id,
                bet_maker_principal_id: bets[i].bet_maker_principal_id,
                post_id,
                slot_id,
                room_id,
                outcome: spec_outcome_for(winner, bets[i]),
                payout_amount: spec_payout_for(winner, bets[i]) as u64,
            }),
        spec_room_bets(bets0, post_id, slot_id, room_id, bets),
    ensures
        spec_fee_of_msgs(bets0, base + room_msgs.take(w)) == spec_fee_of_msgs(bets0, base)
            + spec_total_fee(bets.take(w), winner),
    decreases w,
{
    if w == 0 {
        assert(base + room_msgs.take(0) =~= base);
    } else {
        lemma_room_fee_matches(
            bets0,
            base,
            room_msgs,
            bets,
            winner,
            post_id,
            slot_id,
            room_id,
            w - 1,
        );
        assert((base + room_msgs.take(w)).drop_last() =~= base + room_msgs.take(w - 1));
        assert((base + room_msgs.take(w)).last() == room_msgs[w - 1]);
        assert(bets.take(w).drop_last() =~= bets.take(w - 1));
        assert(bets.take(w).last() == bets[w - 1]);
        let b = bets[w - 1];
        let bk = (post_id, slot_id, room_id, b.bet_maker_principal_id);
        assert(bets0.contains_key(bk) && bets0[bk].0 == b.amount);
        assert(spec_fee_of_msg(bets0, room_msgs[w - 1]) == spec_fee_for(winner, b));
    }
}

/// Tabulates every not-yet-decided room of `(post_id, slot_id)` from the
/// side indices: writes each room's outcome into its side entry, credits
/// the creator's fees to the token balance (saturating), and returns the
/// "bet settled" messages owed to the participants' actors.  Rooms already
/// carrying an outcome are left alone, so the call is idempotent.
#[verifier::rlimit(60)]
pub fn tabulate_hot_or_not_outcome_for_post_slot(
    canister_data: &mut CanisterData,
    post_id: u64,
    slot_id: u64,
) -> (msgs: Vec<BetSettled>)
    requires
        old(canister_data).wf_recoverable(),
    ensures
        final(canister_data).wf_recoverable(),
        old(canister_data).wf() ==> final(canister_data).wf(),
        *final(canister_data) == (CanisterData {
            room_details_map: final(canister_data).room_details_map,
            my_token_balance: final(canister_data).my_token_balance,
            ..*old(canister_data)
        }),
        spec_slot_rooms_tabulated(
            stable_kv_contents(old(canister_data).room_details_map),
            stable_kv_contents(final(canister_data).room_details_map),
            stable_kv_contents(old(canister_data).bet_details_map),
            post_id,
            slot_id,
        ),
        spec_slot_msgs_sound(
            stable_kv_contents(old(canister_data).room_details_map),
            stable_kv_contents(final(canister_data).room_details_map),
            stable_kv_contents(old(canister_data).bet_details_map),
            post_id,
            slot_id,
            msgs@,
        ),
        spec_slot_msgs_complete(
            stable_kv_contents(old(canister_data).room_details_map),
            stable_kv_contents(old(canister_data).bet_details_map),
            post_id,
            slot_id,
            msgs@,
        ),
        final(canister_data).my_token_balance.utility_token_balance == spec_saturating_credit(
            old(canister_data).my_token_balance.utility_token_balance,
            spec_fee_of_msgs(stable_kv_contents(old(canister_data).bet_details_map), msgs@),
        ),
{
    let ghost cd0 = *canister_data;
    let ghost r0 = stable_kv_contents(cd0.room_details_map);
    let ghost b0 = stable_kv_contents(cd0.bet_details_map);

    // collect the not-yet-decided rooms of this (post, slot)
    let room_entries = canister_data.room_details_map.entries();
    let mut rooms_todo: OrdMap<Quad> = OrdMap::new();
    let n_rooms = room_entries.len();
    let mut i: usize = 0;
    while i < n_rooms
        invariant
            n_rooms == room_entries@.len(),
            0 <= i <= n_rooms,
            rooms_todo.wf(),
            forall|a: int|
                0 <= a < n_rooms ==> r0.contains_key(#[trigger] room_entries@[a].0)
                    && r0[room_entries@[a].0] == room_entries@[a].1,
            forall|r: u64|
                #[trigger] rooms_todo@.contains_key(r) ==> r0.contains_key(
                    (post_id, slot_id, r, 0),
                ) && r0[(post_id, slot_id, r, 0)] == rooms_todo@[r] && rooms_todo@[r].3 == 0,
            forall|a: int|
                0 <= a < i && (#[trigger] room_entries@[a].0).0 == post_id
                    && room_entries@[a].0.1 == slot_id && room_entries@[a].0.3 == 0
                    && room_entries@[a].1.3 == 0 ==> rooms_todo@.contains_key(
                    room_entries@[a].0.2,
                ),
        decreases n_rooms - i,
    {
        let e = &room_entries[i];
        if e.0.0 == post_id && e.0.1 == slot_id && e.0.3 == 0 && e.1.3 == 0 {
            rooms_todo.insert(e.0.2, e.1);
        }
        i += 1;
    }
    proof {
        assert forall|k: Quad|
            r0.contains_key(k) && k.0 == post_id && k.1 == slot_id && k.3 == 0 && r0[k].3
                == 0 implies rooms_todo@.contains_key(k.2) by {
            let a = choose|a: int| 0 <= a < room_entries@.len() && #[trigger] room_entries@[a].0
                == k;
        }
    }

    // snapshot of the bet entries; the bet map itself is never written here
    let bet_entries = canister_data.bet_details_map.entries();
    let n_bets = bet_entries.len();

    let todo = rooms_todo.entries();
    let n_todo = todo.len();
    let mut msgs: Vec<BetSettled> = Vec::new();
    let mut fee_total: u128 = 0;
    let mut t: usize = 0;
    while t < n_todo
        invariant
            n_todo == todo@.len(),
            0 <= t <= n_todo,
            n_bets == bet_entries@.len(),
            // stable context
            b0 == stable_kv_contents(canister_data.bet_details_map),
            *canister_data == (CanisterData {
                room_details_map: canister_data.room_details_map,
                ..cd0
            }),
            // running creator's fee, exactly the fee the messages carry
            fee_total == spec_fee_of_msgs(b0, msgs@),
            fee_total <= msgs@.len() * 0x3333_3333_3333_3333u128,
            msgs@.len() <= 0xffff_ffff_ffff_ffffu128,
            forall|a: int|
                0 <= a < n_bets ==> b0.contains_key(#[trigger] bet_entries@[a].0)
                    && b0[bet_entries@[a].0] == bet_entries@[a].1,
            forall|k: Quad|
                b0.contains_key(k) ==> exists|a: int|
                    0 <= a < n_bets && (#[trigger] bet_entries@[a].0) == k,
            // todo entries describe undecided rooms
            forall|a: int, c: int| 0 <= a < c < n_todo ==> todo@[a].0 < todo@[c].0,
            forall|a: int|
                0 <= a < n_todo ==> r0.contains_key(
                    (post_id, slot_id, (#[trigger] todo@[a].0), 0),
                ) && r0[(post_id, slot_id, todo@[a].0, 0)] == todo@[a].1 && todo@[a].1.3 == 0,
            forall|k: Quad|
                r0.contains_key(k) && k.0 == post_id && k.1 == slot_id && k.3 == 0 && r0[k].3
                    == 0 ==> exists|a: int| 0 <= a < n_todo && (#[trigger] todo@[a].0) == k.2,
            // room map evolution so far
            forall|k: Quad|
                stable_kv_contents(canister_data.room_details_map).contains_key(k)
                    == r0.contains_key(k),
            forall|k: Quad|
                #[trigger] r0.contains_key(k) && !(k.0 == post_id && k.1 == slot_id && k.3 == 0
                    && r0[k].3 == 0 && exists|a: int|
                    0 <= a < t && (#[trigger] todo@[a].0) == k.2) ==> stable_kv_contents(
                    canister_data.room_details_map,
                )[k] == r0[k],
            forall|a: int|
                0 <= a < t ==> {
                    let k = (post_id, slot_id, (#[trigger] todo@[a].0), 0u64);
                    let v0 = r0[k];
                    let v1 = stable_kv_contents(canister_data.room_details_map)[k];
                    &&& v1.0 == v0.0 && v1.1 == v0.1 && v1.2 == v0.2
                    &&& v1.3 != 0
                    &&& exists|bets: Seq<RoomBetInfo>|
                        spec_room_bets(b0, post_id, slot_id, todo@[a].0, bets) && v1.3
                            == spec_outcome_code(spec_room_winner(bets))
                },
            // messages so far: sound
            forall|i2: int|
                0 <= i2 < msgs@.len() ==> {
                    let m = #[trigger] msgs@[i2];
                    let bk = (post_id, slot_id, m.room_id, m.bet_maker_principal_id);
                    let rk = (post_id, slot_id, m.room_id, 0u64);
                    let r1 = stable_kv_contents(canister_data.room_details_map);
                    let bet = RoomBetInfo {
                        bet_maker_principal_id: m.bet_maker_principal_id,
                        bet_maker_canister_id: b0[bk].2,
                        amount: b0[bk].0,
                        direction_code: b0[bk].1,
                    };
                    &&& m.post_id == post_id
                    &&& m.slot_id == slot_id
                    &&& b0.contains_key(bk)
                    &&& r0.contains_key(rk)
                    &&& r0[rk].3 == 0
                    &&& (exists|a: int| 0 <= a < t && (#[trigger] todo@[a].0) == m.room_id)
                    &&& m.bet_maker_canister_id == b0[bk].2
                    &&& m.outcome == spec_outcome_for(spec_winner_of_code(r1[rk].3), bet)
                    &&& m.payout_amount == spec_payout_for(spec_winner_of_code(r1[rk].3), bet)
                        as u64
                },
            // messages so far: complete for processed rooms
            forall|k: Quad, a: int|
                #[trigger] b0.contains_key(k) && k.0 == post_id && k.1 == slot_id && 0 <= a < t
                    && (#[trigger] todo@[a].0) == k.2 ==> exists|i2: int|
                    0 <= i2 < msgs@.len() && (#[trigger] msgs@[i2]).room_id == k.2
                        && msgs@[i2].bet_maker_principal_id == k.3,
        decreases n_todo - t,
    {
        let room_id = todo[t].0;
        let q = todo[t].1;
        // gather this room's bets, ordered by principal
        let mut bets_map: OrdMap<RoomBetInfo> = OrdMap::new();
        let mut j: usize = 0;
        while j < n_bets
            invariant
                n_bets == bet_entries@.len(),
                0 <= j <= n_bets,
                bets_map.wf(),
                forall|a: int|
                    0 <= a < n_bets ==> b0.contains_key(#[trigger] bet_entries@[a].0)
                        && b0[bet_entries@[a].0] == bet_entries@[a].1,
                forall|pr: u64|
                    #[trigger] bets_map@.contains_key(pr) ==> b0.contains_key(
                        (post_id, slot_id, room_id, pr),
                    ) && bets_map@[pr] == (RoomBetInfo {
                        bet_maker_principal_id: pr,
                        bet_maker_canister_id: b0[(post_id, slot_id, room_id, pr)].2,
                        amount: b0[(post_id, slot_id, room_id, pr)].0,
                        direction_code: b0[(post_id, slot_id, room_id, pr)].1,
                    }),
                forall|a: int|
                    0 <= a < j && (#[trigger] bet_entries@[a].0).0 == post_id
                        && bet_entries@[a].0.1 == slot_id && bet_entries@[a].0.2 == room_id
                        ==> bets_map@.contains_key(bet_entries@[a].0.3),
            decreases n_bets - j,
        {
            let e = &bet_entries[j];
            if e.0.0 == post_id && e.0.1 == slot_id && e.0.2 == room_id {
                bets_map.insert(
                    e.0.3,
                    RoomBetInfo {
                        bet_maker_principal_id: e.0.3,
                        bet_maker_canister_id: e.1.2,
                        amount: e.1.0,
                        direction_code: e.1.1,
                    },
                );
            }
            j += 1;
        }
        let bet_list = bets_map.entries();
        let m_bets = bet_list.len();
        let mut bets_vec: Vec<RoomBetInfo> = Vec::new();
        let mut c: usize = 0;
        while c < m_bets
            invariant
                m_bets == bet_list@.len(),
                0 <= c <= m_bets,
                bets_vec@.len() == c,
                forall|a: int| 0 <= a < c ==> #[trigger] bets_vec@[a] == bet_list@[a].1,
            decreases m_bets - c,
        {
            bets_vec.push(bet_list[c].1);
            c += 1;
        }
        proof {
            assert forall|a: int| 0 <= a < bets_vec@.len() implies (#[trigger] bets_vec@[a]).bet_maker_principal_id
                == bet_list@[a].0 by {
                assert(bets_map@.contains_key(bet_list@[a].0));
            }
            assert(spec_room_bets(b0, post_id, slot_id, room_id, bets_vec@)) by {
                assert forall|pr: u64|
                    #[trigger] b0.contains_key((post_id, slot_id, room_id, pr)) implies exists|
                    idx: int,
                | 0 <= idx < bets_vec@.len() && bets_vec@[idx].bet_maker_principal_id == pr by {
                    let a = choose|a: int|
                        0 <= a < bet_entries@.len() && (#[trigger] bet_entries@[a].0) == (
                        post_id,
                        slot_id,
                        room_id,
                        pr,
                        );
                    assert(bets_map@.contains_key(pr));
                    let idx = choose|idx: int|
                        0 <= idx < bet_list@.len() && (#[trigger] bet_list@[idx].0) == pr;
                    assert(bets_vec@[idx].bet_maker_principal_id == pr);
                }
            }
        }
        let (room_msgs, winner, fee) = settle_room(post_id, slot_id, room_id, &bets_vec);
        let code = outcome_code(winner);
        proof {
            assert(code != 0);
            assert(spec_winner_of_code(code) == winner);
        }
        canister_data.room_details_map.insert((post_id, slot_id, room_id, 0), (q.0, q.1, q.2, code));
        let ghost msgs_before = msgs@;
        let n_msgs = room_msgs.len();
        let mut w: usize = 0;
        while w < n_msgs
            invariant
                n_msgs == room_msgs@.len(),
                0 <= w <= n_msgs,
                msgs@ == msgs_before + room_msgs@.take(w as int),
            decreases n_msgs - w,
        {
            msgs.push(room_msgs[w]);
            proof {
                assert(msgs@ =~= msgs_before + room_msgs@.take(w as int + 1));
            }
            w += 1;
        }
        proof {
            assert(msgs@ =~= msgs_before + room_msgs@);
            let r1 = stable_kv_contents(canister_data.room_details_map);
            let rk = (post_id, slot_id, room_id, 0u64);
            assert(r1[rk].3 == code);
            // the new messages are sound
            assert forall|i2: int| 0 <= i2 < msgs@.len() implies {
                let m = #[trigger] msgs@[i2];
                let bk = (post_id, slot_id, m.room_id, m.bet_maker_principal_id);
                let mrk = (post_id, slot_id, m.room_id, 0u64);
                let bet = RoomBetInfo {
                    bet_maker_principal_id: m.bet_maker_principal_id,
                    bet_maker_canister_id: b0[bk].2,
                    amount: b0[bk].0,
                    direction_code: b0[bk].1,
                };
                &&& m.post_id == post_id
                &&& m.slot_id == slot_id
                &&& b0.contains_key(bk)
                &&& r0.contains_key(mrk)
                &&& r0[mrk].3 == 0
                &&& (exists|a: int| 0 <= a < t + 1 && (#[trigger] todo@[a].0) == m.room_id)
                &&& m.bet_maker_canister_id == b0[bk].2
                &&& m.outcome == spec_outcome_for(spec_winner_of_code(r1[mrk].3), bet)
                &&& m.payout_amount == spec_payout_for(spec_winner_of_code(r1[mrk].3), bet)
                    as u64
            } by {
                if i2 < msgs_before.len() {
                    let m = msgs@[i2];
                    assert(m == msgs_before[i2]);
                    let a = choose|a: int| 0 <= a < t && (#[trigger] todo@[a].0) == m.room_id;
                    assert(m.room_id != room_id);
                    assert(r1[(post_id, slot_id, m.room_id, 0u64)] == stable_kv_contents(
                        canister_data.room_details_map,
                    )[(post_id, slot_id, m.room_id, 0u64)]);
                } else {
                    let i3 = i2 - msgs_before.len();
                    assert(msgs@[i2] == room_msgs@[i3]);
                    let b = bets_vec@[i3];
                    assert(b0.contains_key((post_id, slot_id, room_id, b.bet_maker_principal_id)));
                    assert(t < n_todo && todo@[t as int].0 == room_id);
                }
            }
            // completeness for every room processed so far
            assert forall|k: Quad, a: int|
                #[trigger] b0.contains_key(k) && k.0 == post_id && k.1 == slot_id && 0 <= a < t
                    + 1 && (#[trigger] todo@[a].0) == k.2 implies exists|i2: int|
                0 <= i2 < msgs@.len() && (#[trigger] msgs@[i2]).room_id == k.2
                    && msgs@[i2].bet_maker_principal_id == k.3 by {
                if a < t {
                    let i2 = choose|i2: int|
                        0 <= i2 < msgs_before.len() && (#[trigger] msgs_before[i2]).room_id == k.2
                            && msgs_before[i2].bet_maker_principal_id == k.3;
                    assert(msgs@[i2] == msgs_before[i2]);
                } else {
                    assert(k.2 == room_id);
                    let idx = choose|idx: int|
                        0 <= idx < bets_vec@.len() && (
                        #[trigger] bets_vec@[idx]).bet_maker_principal_id == k.3;
                    assert(msgs@[msgs_before.len() + idx].room_id == room_id);
                    assert(msgs@[msgs_before.len() + idx].bet_maker_principal_id == k.3);
                }
            }
        }
        let n_total = msgs.len();
        proof {
            lemma_room_fee_matches(
                b0,
                msgs_before,
                room_msgs@,
                bets_vec@,
                winner,
                post_id,
                slot_id,
                room_id,
                room_msgs@.len() as int,
            );
            assert(room_msgs@.take(room_msgs@.len() as int) =~= room_msgs@);
            assert(bets_vec@.take(bets_vec@.len() as int) =~= bets_vec@);
            assert(n_total == msgs_before.len() + room_msgs@.len());
        }
        fee_total = fee_total + fee;
        t += 1;
    }
    // credit the creator's fees, saturating at the balance type's ceiling
    let bal = canister_data.my_token_balance.utility_token_balance;
    let headroom = (u64::MAX - bal) as u128;
    let credited: u64 = if fee_total > headroom {
        u64::MAX
    } else {
        bal + (fee_total as u64)
    };
    proof {
        assert(credited == spec_saturating_credit(bal, fee_total as int));
    }
    canister_data.my_token_balance = crate::state::TokenBalance { utility_token_balance: credited };
    proof {
        lemma_tabulation_preserves_wf(cd0, *canister_data, post_id, slot_id);
    }
    msgs
}

/// Rewriting only room outcome codes (and the token balance) cannot break
/// either the recoverable invariant or the full mirror invariant.
proof fn lemma_tabulation_preserves_wf(
    cd0: CanisterData,
    cd1: CanisterData,
    post_id: u64,
    slot_id: u64,
)
    requires
        cd0.wf_recoverable(),
        cd1 == (CanisterData {
            room_details_map: cd1.room_details_map,
            my_token_balance: cd1.my_token_balance,
            ..cd0
        }),
        forall|k: Quad|
            stable_kv_contents(cd1.room_details_map).contains_key(k) == stable_kv_contents(
                cd0.room_details_map,
            ).contains_key(k),
        forall|k: Quad|
            #[trigger] stable_kv_contents(cd0.room_details_map).contains_key(k) ==> {
                let v0 = stable_kv_contents(cd0.room_details_map)[k];
                let v1 = stable_kv_contents(cd1.room_details_map)[k];
                v1.0 == v0.0 && v1.1 == v0.1 && v1.2 == v0.2
            },
    ensures
        cd1.wf_recoverable(),
        cd0.wf() ==> cd1.wf(),
{
    crate::state::lemma_side_covers_same_room_domain(
        cd0.all_created_posts,
        cd0.room_details_map,
        cd1.room_details_map,
        cd0.bet_details_map,
        cd0.post_principal_map,
        cd0.slot_details_map,
    );
    crate::state::lemma_side_internal_same_room_domain(
        cd0.room_details_map,
        cd1.room_details_map,
        cd0.bet_details_map,
    );
    if cd0.wf() {
        crate::state::lemma_tree_covers_same_room_values(
            cd0.all_created_posts,
            cd0.room_details_map,
            cd1.room_details_map,
            cd0.bet_details_map,
            cd0.post_principal_map,
            cd0.slot_details_map,
        );
    }
}

} // verus!
