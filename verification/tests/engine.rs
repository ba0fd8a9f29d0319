use hot_or_not_engine::bet_flow::receive_bet_from_bet_makers_canister_impl;
use hot_or_not_engine::constant::{
    DURATION_OF_EACH_SLOT_IN_SECONDS, TOTAL_DURATION_OF_ALL_SLOTS_IN_SECONDS,
};
use hot_or_not_engine::hot_or_not::{BetDirection, BettingStatus};
use hot_or_not_engine::post::{Post, PostDetailsFromFrontend};
use hot_or_not_engine::state::{CanisterData, PlaceBetArg};

const T0: u64 = 1_700_000_000_000;

const ALICE: u64 = 1000;

const ALICE_CANISTER: u64 = 9000;

fn doggo_details() -> PostDetailsFromFrontend {
    PostDetailsFromFrontend {
        is_nsfw: false,
        description: "Doggos and puppers".into(),
        hashtags: vec!["doggo".into(), "pupper".into()],
        video_uid: "abcd#1234".into(),
        creator_consent_for_inclusion_in_hot_or_not: true,
    }
}

#[test]
fn test_get_hot_or_not_betting_status_for_this_post() {
    let mut post = Post::new(0, doggo_details(), T0);

    let result = post.get_hot_or_not_betting_status_for_this_post(
        T0 + (TOTAL_DURATION_OF_ALL_SLOTS_IN_SECONDS + 1) * 1000,
        0,
    );
    assert_eq!(result, BettingStatus::BettingClosed);

    let current_time = T0;

    let result = post.get_hot_or_not_betting_status_for_this_post(current_time, 0);
    assert_eq!(
        result,
        BettingStatus::BettingOpen {
            started_at: post.created_at,
            number_of_participants: 0,
            ongoing_slot: 1,
            ongoing_room: 1,
            has_this_user_participated_in_this_post: None,
        }
    );

    let result = post.get_hot_or_not_betting_status_for_this_post(
        current_time + (DURATION_OF_EACH_SLOT_IN_SECONDS * 2 + 1) * 1000,
        0,
    );
    assert_eq!(
        result,
        BettingStatus::BettingOpen {
            started_at: post.created_at,
            number_of_participants: 0,
            ongoing_slot: 3,
            ongoing_room: 1,
            has_this_user_participated_in_this_post: None,
        }
    );

    let result = post.place_hot_or_not_bet(
        ALICE,
        100,
        BetDirection::Hot,
        current_time + (DURATION_OF_EACH_SLOT_IN_SECONDS * 2 + 1) * 1000,
    );
    assert!(result.is_ok());

    let result = post.get_hot_or_not_betting_status_for_this_post(
        current_time + (DURATION_OF_EACH_SLOT_IN_SECONDS * 2 + 1) * 1000,
        ALICE,
    );
    assert_eq!(
        result,
        BettingStatus::BettingOpen {
            started_at: post.created_at,
            number_of_participants: 1,
            ongoing_slot: 3,
            ongoing_room: 1,
            has_this_user_participated_in_this_post: Some(true),
        }
    );

    for num in 100u64..200 {
        let result = post.place_hot_or_not_bet(
            num,
            100,
            BetDirection::Hot,
            current_time + (DURATION_OF_EACH_SLOT_IN_SECONDS * 2 + 1) * 1000,
        );
        assert!(result.is_ok());
    }

    let result = post.place_hot_or_not_bet(
        200,
        100,
        BetDirection::Hot,
        current_time + (DURATION_OF_EACH_SLOT_IN_SECONDS * 2 + 1) * 1000,
    );
    assert!(result.is_ok());

    let result = post.get_hot_or_not_betting_status_for_this_post(
        current_time + (DURATION_OF_EACH_SLOT_IN_SECONDS * 2 + 1) * 1000,
        100,
    );
    assert_eq!(
        result,
        BettingStatus::BettingOpen {
            started_at: post.created_at,
            number_of_participants: 2,
            ongoing_slot: 3,
            ongoing_room: 2,
            has_this_user_participated_in_this_post: Some(true),
        }
    );

    let result = post.place_hot_or_not_bet(
        ALICE,
        100,
        BetDirection::Hot,
        current_time + (DURATION_OF_EACH_SLOT_IN_SECONDS * 2 + 1) * 1000,
    );
    assert!(result.is_err());

    let result = post.get_hot_or_not_betting_status_for_this_post(
        current_time + (DURATION_OF_EACH_SLOT_IN_SECONDS * 2 + 1) * 1000,
        ALICE,
    );
    assert_eq!(
        result,
        BettingStatus::BettingOpen {
            started_at: post.created_at,
            number_of_participants: 2,
            ongoing_slot: 3,
            ongoing_room: 2,
            has_this_user_participated_in_this_post: Some(true),
        }
    );

    let result = post.place_hot_or_not_bet(
        ALICE,
        100,
        BetDirection::Hot,
        current_time + (DURATION_OF_EACH_SLOT_IN_SECONDS * 4 + 1) * 1000,
    );
    assert!(result.is_err());

    let result = post.get_hot_or_not_betting_status_for_this_post(
        current_time + (DURATION_OF_EACH_SLOT_IN_SECONDS * 4 + 1) * 1000,
        ALICE,
    );
    assert_eq!(
        result,
        BettingStatus::BettingOpen {
            started_at: post.created_at,
            number_of_participants: 0,
            ongoing_slot: 5,
            ongoing_room: 1,
            has_this_user_participated_in_this_post: Some(true),
        }
    );
}

#[test]
fn test_has_this_principal_already_bet_on_this_post() {
    let mut post = Post::new(0, doggo_details(), T0);

    let result = post.has_this_principal_already_bet_on_this_post(ALICE);
    assert_eq!(result, false);

    post.place_hot_or_not_bet(ALICE, 100, BetDirection::Hot, T0).ok();

    let result = post.has_this_principal_already_bet_on_this_post(ALICE);
    assert_eq!(result, true);
}

#[test]
fn test_place_hot_or_not_bet() {
    let mut post = Post::new(0, doggo_details(), T0);

    assert!(post.hot_or_not_details.is_some());

    let result = post.place_hot_or_not_bet(
        ALICE,
        100,
        BetDirection::Hot,
        T0 + (TOTAL_DURATION_OF_ALL_SLOTS_IN_SECONDS + 1) * 1000,
    );
    assert_eq!(
        result,
        Err(hot_or_not_engine::error::BetOnCurrentlyViewingPostError::BettingClosed)
    );

    let result = post.place_hot_or_not_bet(ALICE, 100, BetDirection::Hot, T0);
    assert_eq!(
        result,
        Ok(BettingStatus::BettingOpen {
            started_at: post.created_at,
            number_of_participants: 1,
            ongoing_slot: 1,
            ongoing_room: 1,
            has_this_user_participated_in_this_post: Some(true)
        })
    );

    let hot_or_not_details = post.hot_or_not_details.as_ref().unwrap();
    assert_eq!(hot_or_not_details.slot_history.len(), 1);
    let room_details = &hot_or_not_details.slot_history.get(1).unwrap().room_details;
    assert_eq!(room_details.len(), 1);
    let bets_made = &room_details.get(1).unwrap().bets_made;
    assert_eq!(bets_made.len(), 1);
    assert_eq!(bets_made.get(ALICE).unwrap().amount, 100);
    assert_eq!(bets_made.get(ALICE).unwrap().bet_direction, BetDirection::Hot);
    assert_eq!(hot_or_not_details.aggregate_stats.total_amount_bet, 100);
    assert_eq!(hot_or_not_details.aggregate_stats.total_number_of_hot_bets, 1);
    assert_eq!(hot_or_not_details.aggregate_stats.total_number_of_not_bets, 0);

    let result = post.place_hot_or_not_bet(ALICE, 100, BetDirection::Hot, T0);
    assert!(result.is_err());
}

#[test]
fn when_new_post_created_then_their_hot_or_not_feed_score_is_calculated() {
    let post = Post::new(0, doggo_details(), T0);

    assert_eq!(post.hot_or_not_details.unwrap().score, 0);
}

#[test]
fn test_receive_bet_from_bet_makers_canister_impl() {
    let mut canister_data = CanisterData::default();
    canister_data
        .all_created_posts
        .insert(0, Post::new(0, doggo_details(), T0));

    let result = receive_bet_from_bet_makers_canister_impl(
        &mut canister_data,
        ALICE,
        ALICE_CANISTER,
        PlaceBetArg {
            post_canister_id: ALICE_CANISTER,
            post_id: 0,
            bet_amount: 100,
            bet_direction: BetDirection::Hot,
        },
        T0,
    );

    let post = canister_data.all_created_posts.get(0).unwrap();

    assert_eq!(
        result,
        Ok(BettingStatus::BettingOpen {
            started_at: post.created_at,
            number_of_participants: 1,
            ongoing_slot: 1,
            ongoing_room: 1,
            has_this_user_participated_in_this_post: Some(true)
        })
    );

    let room_details = canister_data.room_details_map.get((0, 1, 1, 0)).unwrap();
    let bet_details = canister_data.bet_details_map.get((0, 1, 1, ALICE)).unwrap();

    // room pot, hot-bet count, not-bet count
    assert_eq!(room_details.0, 100);
    assert_eq!(room_details.1, 1);
    assert_eq!(room_details.2, 0);

    // bet amount, direction code (hot), bettor's actor
    assert_eq!(bet_details.0, 100);
    assert_eq!(bet_details.1, 0);
    assert_eq!(bet_details.2, ALICE_CANISTER);
}
