use hot_or_not_engine::feed::{
    get_top_posts_aggregated_from_canisters_on_this_network_for_home_feed_impl,
    get_top_posts_aggregated_from_canisters_on_this_network_for_hot_or_not_feed_cursor_impl,
    PostScoreIndexItem, PostScoreIndexItemV1, TopPostsFetchError,
};
use hot_or_not_engine::post::PostStatus;

const NOW: u64 = 1_700_000_000_000;

const EARLIER: u64 = NOW - (48 * 60 * 60 + 1) * 1000;

fn v1(
    post_id: u64,
    score: u64,
    created_at_ms: u64,
    is_nsfw: bool,
    status: PostStatus,
) -> PostScoreIndexItemV1 {
    PostScoreIndexItemV1 {
        post_id,
        score,
        publisher_canister_id: 0,
        is_nsfw,
        status,
        created_at_ms: Some(created_at_ms),
    }
}

#[test]
fn test_get_top_posts_aggregated_from_canisters_on_this_network_for_home_feed() {
    let empty: Vec<PostScoreIndexItem> = Vec::new();
    let result = get_top_posts_aggregated_from_canisters_on_this_network_for_home_feed_impl(
        0, 10, &empty,
    );
    assert!(result.is_err());
    assert_eq!(
        result.err().unwrap(),
        TopPostsFetchError::ReachedEndOfItemsList
    );

    // the ranked index after scoring post 1 at 1, re-scoring it at 2 and
    // scoring post 2 at 3: one entry per post, descending by score
    let posts = vec![
        PostScoreIndexItem { post_id: 2, score: 3, publisher_canister_id: 0 },
        PostScoreIndexItem { post_id: 1, score: 2, publisher_canister_id: 0 },
    ];
    let result = get_top_posts_aggregated_from_canisters_on_this_network_for_home_feed_impl(
        0, 10, &posts,
    );
    assert!(result.is_ok());
    assert_eq!(result.unwrap().len(), 2,);
}

#[test]
fn test_get_top_posts_aggregated_from_canisters_on_this_network_for_hot_or_not_feed_cursor_impl() {
    // the ranked index after post 1 (rescored to 6, now not-safe, aged) and
    // posts 2..=5; the fresh tranche leads, then descending score
    let posts = vec![
        v1(2, 2, NOW, false, PostStatus::ReadyToView),
        v1(1, 6, EARLIER, true, PostStatus::ReadyToView),
        v1(5, 5, EARLIER, false, PostStatus::ReadyToView),
        v1(4, 4, EARLIER, false, PostStatus::ReadyToView),
        v1(3, 3, EARLIER, false, PostStatus::ReadyToView),
    ];

    let result =
        get_top_posts_aggregated_from_canisters_on_this_network_for_hot_or_not_feed_cursor_impl(
            0, 10, &posts, None, None,
        );
    assert!(result.is_ok());
    let page = result.unwrap();
    assert_eq!(page.len(), 5);
    assert_eq!(page[0].post_id, 2);
    assert_eq!(page[1].post_id, 1);
    assert_eq!(page[2].post_id, 5);
    assert_eq!(page[3].post_id, 4);
    assert_eq!(page[4].post_id, 3);

    let result =
        get_top_posts_aggregated_from_canisters_on_this_network_for_hot_or_not_feed_cursor_impl(
            3, 3, &posts, None, None,
        );
    assert!(result.is_ok());
    let page = result.unwrap();
    assert_eq!(page.len(), 2);
    assert_eq!(page[0].post_id, 4);
    assert_eq!(page[1].post_id, 3);

    let result =
        get_top_posts_aggregated_from_canisters_on_this_network_for_hot_or_not_feed_cursor_impl(
            5, 3, &posts, None, None,
        );
    assert_eq!(result, Err(TopPostsFetchError::ReachedEndOfItemsList));
}

#[test]
fn test_get_top_posts_aggregated_from_canisters_on_this_network_for_hot_or_not_feed_cursor_impl_with_nsfw_filter(
) {
    let posts = vec![
        v1(2, 2, NOW, false, PostStatus::ReadyToView),
        v1(1, 6, EARLIER, true, PostStatus::Deleted),
        v1(5, 5, EARLIER, false, PostStatus::ReadyToView),
        v1(4, 4, EARLIER, true, PostStatus::Uploaded),
        v1(3, 3, EARLIER, true, PostStatus::Deleted),
    ];

    let result =
        get_top_posts_aggregated_from_canisters_on_this_network_for_hot_or_not_feed_cursor_impl(
            0,
            3,
            &posts,
            Some(false),
            None,
        );
    assert!(result.is_ok());
    let page = result.unwrap();
    assert_eq!(page.len(), 2);
    assert_eq!(page[0].post_id, 2);
    assert_eq!(page[1].post_id, 5);

    let result =
        get_top_posts_aggregated_from_canisters_on_this_network_for_hot_or_not_feed_cursor_impl(
            0,
            3,
            &posts,
            None,
            Some(PostStatus::Uploaded),
        );
    assert!(result.is_ok());
    let page = result.unwrap();
    assert_eq!(page.len(), 1);
    assert_eq!(page[0].post_id, 4);

    let result =
        get_top_posts_aggregated_from_canisters_on_this_network_for_hot_or_not_feed_cursor_impl(
            0,
            3,
            &posts,
            Some(true),
            Some(PostStatus::Deleted),
        );
    assert!(result.is_ok());
    let page = result.unwrap();
    assert_eq!(page.len(), 2);
    assert_eq!(page[0].post_id, 1);
    assert_eq!(page[1].post_id, 3);
}
