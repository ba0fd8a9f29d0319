use hot_or_not_engine::bet_flow::receive_bet_from_bet_makers_canister_impl;
use hot_or_not_engine::constant::DURATION_OF_EACH_SLOT_IN_MS;
use hot_or_not_engine::hot_or_not::BetResult;
use hot_or_not_engine::migration::{receive_data_from_hotornot, SubnetType};
use hot_or_not_engine::omap::OrdMap;
use hot_or_not_engine::reconcile::reconcile_canister_winnings_impl;
use hot_or_not_engine::stable_kv::TimerQueue;
use hot_or_not_engine::post::{Post, PostDetailsFromFrontend};
use hot_or_not_engine::scheduler::{maybe_enqueue_timer, maybe_start_timer_based_on_bet_result};
use hot_or_not_engine::state::{
    CanisterData, MigrationInfo, PlaceBetArg, RoomBetPossibleOutcomes, SessionType,
};
use hot_or_not_engine::tabulation::{settle_room, RoomBetInfo};
use hot_or_not_engine::hot_or_not::BetDirection;

const T0: u64 = 1_700_000_000_000;

fn plain_details(consent: bool) -> PostDetailsFromFrontend {
    PostDetailsFromFrontend {
        is_nsfw: false,
        description: "a post".into(),
        hashtags: vec!["tag".into()],
        video_uid: "uid#1".into(),
        creator_consent_for_inclusion_in_hot_or_not: consent,
    }
}

fn bet_arg(post_id: u64, amount: u64, direction: BetDirection) -> PlaceBetArg {
    PlaceBetArg { post_canister_id: 9000, post_id, bet_amount: amount, bet_direction: direction }
}

/// A single first bet opens room 1 of slot 1, registers the post with the
/// scheduler, and asks for exactly one timer a slot-length after the bet;
/// a second bet neither re-registers nor re-arms.
#[test]
fn first_bet_schedules_one_timer_and_second_bet_does_not() {
    let mut cd = CanisterData::default();
    cd.all_created_posts.insert(0, Post::new(0, plain_details(true), T0));

    let t1 = T0 + 5_000;
    let res = receive_bet_from_bet_makers_canister_impl(
        &mut cd,
        1000,
        9100,
        bet_arg(0, 100, BetDirection::Hot),
        t1,
    );
    assert!(res.is_ok());

    let (action, msgs) = maybe_start_timer_based_on_bet_result(&mut cd, t1, 0, &res);
    assert!(msgs.is_empty());
    let action = action.unwrap();
    assert_eq!(action.post_id, 0);
    assert_eq!(action.delay_ms, DURATION_OF_EACH_SLOT_IN_MS);
    assert_eq!(cd.is_timer_running, Some(0));
    let fb = *cd.first_bet_placed_at_hashmap.get(0).unwrap();
    assert_eq!(fb.bet_placed_at_ms, t1);
    assert_eq!(fb.ongoing_slot, 1);

    // a later bet by another principal leaves the registration alone
    let t2 = T0 + 600_000;
    let res2 = receive_bet_from_bet_makers_canister_impl(
        &mut cd,
        2,
        9200,
        bet_arg(0, 50, BetDirection::Not),
        t2,
    );
    assert!(res2.is_ok());
    let (action2, msgs2) = maybe_start_timer_based_on_bet_result(&mut cd, t2, 0, &res2);
    assert!(action2.is_none());
    assert!(msgs2.is_empty());
    let fb = *cd.first_bet_placed_at_hashmap.get(0).unwrap();
    assert_eq!(fb.bet_placed_at_ms, t1);

    // when the timer fires, the slot is tabulated: hot wins 100 against 50
    let t3 = t1 + DURATION_OF_EACH_SLOT_IN_MS;
    let (_, settled) = maybe_enqueue_timer(&mut cd, t3);
    assert_eq!(settled.len(), 2);
    // messages come in ascending principal order within the room
    assert_eq!(settled[0].bet_maker_principal_id, 2);
    assert_eq!(settled[0].outcome, BetResult::Lost);
    assert_eq!(settled[0].payout_amount, 0);
    assert_eq!(settled[1].bet_maker_principal_id, 1000);
    assert_eq!(settled[1].outcome, BetResult::Won(180));
    assert_eq!(settled[1].payout_amount, 180);
    // the creator collected the 20% fee of the doubled winning stake
    assert_eq!(cd.my_token_balance.utility_token_balance, 20);
    // the post is unregistered and the room carries its outcome
    assert!(cd.first_bet_placed_at_hashmap.get(0).is_none());
    assert_eq!(cd.is_timer_running, None);
    let room = cd.room_details_map.get((0, 1, 1, 0)).unwrap();
    assert_eq!(room.3, 1);

    // a replay of the expired timer changes nothing further
    let (_, settled_again) = maybe_enqueue_timer(&mut cd, t3 + 1);
    assert!(settled_again.is_empty());
    assert_eq!(cd.my_token_balance.utility_token_balance, 20);
}

/// An exactly split room is a draw: every stake is refunded and the creator
/// collects nothing, so the payouts conserve the pot.
#[test]
fn drawn_room_refunds_every_stake() {
    let bets = vec![
        RoomBetInfo {
            bet_maker_principal_id: 1,
            bet_maker_canister_id: 11,
            amount: 100,
            direction_code: 0,
        },
        RoomBetInfo {
            bet_maker_principal_id: 2,
            bet_maker_canister_id: 12,
            amount: 100,
            direction_code: 1,
        },
    ];
    let (msgs, winner, fee) = settle_room(7, 1, 1, &bets);
    assert_eq!(winner, RoomBetPossibleOutcomes::Draw);
    assert_eq!(fee, 0);
    assert_eq!(msgs.len(), 2);
    assert_eq!(msgs[0].outcome, BetResult::Draw);
    assert_eq!(msgs[0].payout_amount, 100);
    assert_eq!(msgs[1].outcome, BetResult::Draw);
    assert_eq!(msgs[1].payout_amount, 100);
}

/// Winning payouts round down: a 7-token stake pays 12 of its doubled 14,
/// and the creator's fee takes 1.
#[test]
fn winning_payout_rounds_down() {
    let bets = vec![
        RoomBetInfo {
            bet_maker_principal_id: 1,
            bet_maker_canister_id: 11,
            amount: 7,
            direction_code: 0,
        },
        RoomBetInfo {
            bet_maker_principal_id: 2,
            bet_maker_canister_id: 12,
            amount: 3,
            direction_code: 1,
        },
    ];
    let (msgs, winner, fee) = settle_room(7, 1, 1, &bets);
    assert_eq!(winner, RoomBetPossibleOutcomes::HotWon);
    assert_eq!(fee, 1);
    assert_eq!(msgs[0].outcome, BetResult::Won(12));
    assert_eq!(msgs[1].outcome, BetResult::Lost);
}

/// The migration handshake on the destination: tokens are credited, posts
/// are appended re-indexed past the largest local id, and a retry answers
/// that the actor already migrated.
#[test]
fn migration_receive_is_exactly_once() {
    let mut cd = CanisterData::default();
    cd.profile.principal_id = Some(77);
    cd.session_type = Some(SessionType::RegisteredSession);
    cd.my_token_balance.utility_token_balance = 40;
    cd.all_created_posts.insert(0, Post::new(0, plain_details(false), T0));

    let mut incoming: OrdMap<Post> = OrdMap::new();
    incoming.insert(0, Post::new(0, plain_details(false), T0));
    incoming.insert(1, Post::new(1, plain_details(false), T0));
    incoming.insert(2, Post::new(2, plain_details(false), T0));

    // a caller other than the owner is refused
    let r = receive_data_from_hotornot(&mut cd, 5, SubnetType::Yral, 500, 55, OrdMap::new());
    assert_eq!(r, Err("Unauthorized caller".to_string()));

    // an actor still on the source subnet is refused
    let r = receive_data_from_hotornot(&mut cd, 77, SubnetType::HotorNot, 500, 55, OrdMap::new());
    assert_eq!(
        r,
        Err("Unauthorized controller, found in hotornot subnet".to_string())
    );

    let r = receive_data_from_hotornot(&mut cd, 77, SubnetType::Yral, 500, 55, incoming);
    assert_eq!(r, Ok("Success".to_string()));
    assert_eq!(cd.my_token_balance.utility_token_balance, 540);
    assert_eq!(
        cd.migration_info,
        MigrationInfo::MigratedFromHotOrNot { account_principal: 55 }
    );
    // the largest local id was 0, so the incoming posts land at 0, 1 and 2
    assert_eq!(cd.all_created_posts.len(), 3);
    assert!(cd.all_created_posts.get(1).is_some());
    assert!(cd.all_created_posts.get(2).is_some());

    let mut retry: OrdMap<Post> = OrdMap::new();
    retry.insert(0, Post::new(0, plain_details(false), T0));
    let r = receive_data_from_hotornot(&mut cd, 77, SubnetType::Yral, 500, 55, retry);
    assert_eq!(r, Err("Already Migrated".to_string()));
    assert_eq!(cd.my_token_balance.utility_token_balance, 540);
}

/// Adding a post assigns the next dense id and stores it.
#[test]
fn add_post_assigns_dense_ids() {
    let mut cd = CanisterData::default();
    let id0 = hot_or_not_engine::state::add_post_v2_impl(&mut cd, plain_details(true), T0);
    let id1 = hot_or_not_engine::state::add_post_v2_impl(&mut cd, plain_details(true), T0 + 1);
    assert_eq!(id0, Ok(0));
    assert_eq!(id1, Ok(1));
    assert_eq!(cd.all_created_posts.len(), 2);
    assert_eq!(cd.all_created_posts.get(1).unwrap().created_at, T0 + 1);
}


/// The recovery path: when the restored tree no longer reaches rooms the
/// stable side indices still hold, reconciliation replays their payouts
/// once, and a second run finds nothing left to do.
#[test]
fn reconciliation_replays_lost_tabulations_once() {
    let mut cd = CanisterData::default();
    cd.all_created_posts.insert(0, Post::new(0, plain_details(true), T0));
    let r1 = receive_bet_from_bet_makers_canister_impl(
        &mut cd,
        1000,
        9100,
        bet_arg(0, 100, BetDirection::Hot),
        T0 + 5_000,
    );
    assert!(r1.is_ok());
    let r2 = receive_bet_from_bet_makers_canister_impl(
        &mut cd,
        2,
        9200,
        bet_arg(0, 50, BetDirection::Not),
        T0 + 6_000,
    );
    assert!(r2.is_ok());

    // a restore rolls the heap back to before the post existed, while the
    // stable side indices keep the rooms
    cd.all_created_posts = OrdMap::new();
    cd.first_bet_placed_at_hashmap = OrdMap::new();
    cd.bet_timer_posts = TimerQueue::new();
    cd.is_timer_running = None;

    let settled = reconcile_canister_winnings_impl(&mut cd);
    assert_eq!(settled.len(), 2);
    assert_eq!(settled[0].bet_maker_principal_id, 2);
    assert_eq!(settled[0].outcome, BetResult::Lost);
    assert_eq!(settled[1].bet_maker_principal_id, 1000);
    assert_eq!(settled[1].outcome, BetResult::Won(180));
    assert_eq!(cd.my_token_balance.utility_token_balance, 20);
    let room = cd.room_details_map.get((0, 1, 1, 0)).unwrap();
    assert_eq!(room.3, 1);

    // the replay is idempotent: nobody is informed or paid twice
    let settled_again = reconcile_canister_winnings_impl(&mut cd);
    assert!(settled_again.is_empty());
    assert_eq!(cd.my_token_balance.utility_token_balance, 20);
}
