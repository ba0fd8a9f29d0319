//! The network-wide top-post feeds: filtering and pagination over the
//! score-ranked index entries.  The ranked index itself is kept by the feed
//! cache actor; these functions take its entries in iteration order (newest
//! tranche first, descending score within a tranche) and answer one page.

use vstd::prelude::*;

use crate::constant::MAX_POSTS_IN_ONE_REQUEST;
use crate::post::PostStatus;

verus! {

#[derive(Clone, Copy, PartialEq, Eq, Structural, Debug)]
pub struct PostScoreIndexItem {
    pub post_id: u64,
    pub score: u64,
    pub publisher_canister_id: u64,
}

#[derive(Clone, Copy, PartialEq, Eq, Debug)]
pub struct PostScoreIndexItemV1 {
    pub post_id: u64,
    pub score: u64,
    pub publisher_canister_id: u64,
    pub is_nsfw: bool,
    pub status: PostStatus,
    pub created_at_ms: Option<u64>,
}

#[derive(Clone, Copy, PartialEq, Eq, Structural, Debug)]
pub enum PaginationError {
    InvalidBoundsPassed,
    ReachedEndOfItemsList,
    ExceededMaxNumberOfItemsAllowedInOneRequest,
}

#[derive(Clone, Copy, PartialEq, Eq, Structural, Debug)]
pub enum TopPostsFetchError {
    InvalidBoundsPassed,
    ReachedEndOfItemsList,
    ExceededMaxNumberOfItemsAllowedInOneRequest,
}

/// What an index-range request may read: refused when the bounds cross,
/// ask for more than one request may carry, or start past the end; else
/// the start and the end clamped to the item count.
pub open spec fn spec_pagination_bounds(
    from_inclusive: u64,
    to_exclusive: u64,
    total: u64,
) -> Result<(u64, u64), PaginationError> {
    if from_inclusive > to_exclusive {
        Err(PaginationError::InvalidBoundsPassed)
    } else if to_exclusive - from_inclusive > MAX_POSTS_IN_ONE_REQUEST {
        Err(PaginationError::ExceededMaxNumberOfItemsAllowedInOneRequest)
    } else if from_inclusive >= total {
        Err(PaginationError::ReachedEndOfItemsList)
    } else if to_exclusive <= total {
        Ok((from_inclusive, to_exclusive))
    } else {
        Ok((from_inclusive, total))
    }
}

pub fn get_pagination_bounds(from_inclusive: u64, to_exclusive: u64, total: u64) -> (r: Result<
    (u64, u64),
    PaginationError,
>)
    ensures
        r == spec_pagination_bounds(from_inclusive, to_exclusive, total),
{
    if from_inclusive > to_exclusive {
        Err(PaginationError::InvalidBoundsPassed)
    } else if to_exclusive - from_inclusive > MAX_POSTS_IN_ONE_REQUEST {
        Err(PaginationError::ExceededMaxNumberOfItemsAllowedInOneRequest)
    } else if from_inclusive >= total {
        Err(PaginationError::ReachedEndOfItemsList)
    } else if to_exclusive <= total {
        Ok((from_inclusive, to_exclusive))
    } else {
        Ok((from_inclusive, total))
    }
}

/// What a cursor request may read: refused when it asks for more than one
/// request may carry or starts past the end; else the start and the number
/// of items left, clamped to the limit.
pub open spec fn spec_pagination_bounds_cursor(
    from_inclusive: u64,
    limit: u64,
    total: u64,
) -> Result<(u64, u64), PaginationError> {
    if limit > MAX_POSTS_IN_ONE_REQUEST {
        Err(PaginationError::ExceededMaxNumberOfItemsAllowedInOneRequest)
    } else if from_inclusive >= total {
        Err(PaginationError::ReachedEndOfItemsList)
    } else if limit <= total - from_inclusive {
        Ok((from_inclusive, limit))
    } else {
        Ok((from_inclusive, (total - from_inclusive) as u64))
    }
}

pub fn get_pagination_bounds_cursor(from_inclusive: u64, limit: u64, total: u64) -> (r: Result<
    (u64, u64),
    PaginationError,
>)
    ensures
        r == spec_pagination_bounds_cursor(from_inclusive, limit, total),
{
    if limit > MAX_POSTS_IN_ONE_REQUEST {
        Err(PaginationError::ExceededMaxNumberOfItemsAllowedInOneRequest)
    } else if from_inclusive >= total {
        Err(PaginationError::ReachedEndOfItemsList)
    } else if limit <= total - from_inclusive {
        Ok((from_inclusive, limit))
    } else {
        Ok((from_inclusive, total - from_inclusive))
    }
}

pub open spec fn spec_fetch_error_of(e: PaginationError) -> TopPostsFetchError {
    match e {
        PaginationError::InvalidBoundsPassed => TopPostsFetchError::InvalidBoundsPassed,
        PaginationError::ReachedEndOfItemsList => TopPostsFetchError::ReachedEndOfItemsList,
        PaginationError::ExceededMaxNumberOfItemsAllowedInOneRequest => TopPostsFetchError::ExceededMaxNumberOfItemsAllowedInOneRequest,
    }
}

/// One page of the home feed: the index entries from `from_inclusive_index`
/// up to `to_exclusive_index`, clamped to what the index holds.
pub fn get_top_posts_aggregated_from_canisters_on_this_network_for_home_feed_impl(
    from_inclusive_index: u64,
    to_exclusive_index: u64,
    posts_sorted_by_home_feed_score: &Vec<PostScoreIndexItem>,
) -> (r: Result<Vec<PostScoreIndexItem>, TopPostsFetchError>)
    ensures
        ({
            let total = posts_sorted_by_home_feed_score@.len() as u64;
            match spec_pagination_bounds(from_inclusive_index, to_exclusive_index, total) {
                Err(e) => r == Err::<Vec<PostScoreIndexItem>, TopPostsFetchError>(
                    spec_fetch_error_of(e),
                ),
                Ok((f, t)) => r matches Ok(page) && page@ == posts_sorted_by_home_feed_score@.subrange(
                    f as int,
                    t as int,
                ),
            }
        }),
{
    let total = posts_sorted_by_home_feed_score.len() as u64;
    let (from, to) = match get_pagination_bounds(from_inclusive_index, to_exclusive_index, total) {
        Ok(bounds) => bounds,
        Err(e) => {
            return Err(match e {
                PaginationError::InvalidBoundsPassed => TopPostsFetchError::InvalidBoundsPassed,
                PaginationError::ReachedEndOfItemsList => TopPostsFetchError::ReachedEndOfItemsList,
                PaginationError::ExceededMaxNumberOfItemsAllowedInOneRequest => TopPostsFetchError::ExceededMaxNumberOfItemsAllowedInOneRequest,
            });
        },
    };
    let mut page: Vec<PostScoreIndexItem> = Vec::new();
    let mut i: usize = from as usize;
    while i < to as usize
        invariant
            from <= to,
            to as int <= posts_sorted_by_home_feed_score@.len(),
            from as int <= i as int <= to as int,
            page@ == posts_sorted_by_home_feed_score@.subrange(from as int, i as int),
        decreases to as int - i,
    {
        page.push(posts_sorted_by_home_feed_score[i]);
        proof {
            assert(page@ =~= posts_sorted_by_home_feed_score@.subrange(
                from as int,
                i as int + 1,
            ));
        }
        i += 1;
    }
    Ok(page)
}

/// The item passes the feed's optional filters.
pub open spec fn spec_item_passes(
    item: PostScoreIndexItemV1,
    is_nsfw: Option<bool>,
    status: Option<PostStatus>,
) -> bool {
    &&& match is_nsfw {
        Some(f) => item.is_nsfw == f,
        None => true,
    }
    &&& match status {
        Some(st) => item.status == st,
        None => true,
    }
}

/// The index entries that pass the filters, in their given order.
pub open spec fn spec_filtered(
    s: Seq<PostScoreIndexItemV1>,
    is_nsfw: Option<bool>,
    status: Option<PostStatus>,
) -> Seq<PostScoreIndexItemV1>
    decreases s.len(),
{
    if s.len() == 0 {
        Seq::empty()
    } else if spec_item_passes(s.last(), is_nsfw, status) {
        spec_filtered(s.drop_last(), is_nsfw, status).push(s.last())
    } else {
        spec_filtered(s.drop_last(), is_nsfw, status)
    }
}

/// One cursor page of the hot-or-not feed: the index entries passing the
/// optional filters, from `from_inclusive_index` on, at most `limit` many.
pub fn get_top_posts_aggregated_from_canisters_on_this_network_for_hot_or_not_feed_cursor_impl(
    from_inclusive_index: u64,
    limit: u64,
    posts_sorted_by_hot_or_not_feed_score: &Vec<PostScoreIndexItemV1>,
    is_nsfw: Option<bool>,
    status: Option<PostStatus>,
) -> (r: Result<Vec<PostScoreIndexItemV1>, TopPostsFetchError>)
    ensures
        ({
            let filtered = spec_filtered(
                posts_sorted_by_hot_or_not_feed_score@,
                is_nsfw,
                status,
            );
            match spec_pagination_bounds_cursor(
                from_inclusive_index,
                limit,
                filtered.len() as u64,
            ) {
                Err(e) => r == Err::<Vec<PostScoreIndexItemV1>, TopPostsFetchError>(
                    spec_fetch_error_of(e),
                ),
                Ok((f, l)) => r matches Ok(page) && page@ == filtered.subrange(
                    f as int,
                    f + l,
                ),
            }
        }),
{
    let n = posts_sorted_by_hot_or_not_feed_score.len();
    let mut filtered: Vec<PostScoreIndexItemV1> = Vec::new();
    let mut i: usize = 0;
    while i < n
        invariant
            n == posts_sorted_by_hot_or_not_feed_score@.len(),
            0 <= i <= n,
            filtered@ == spec_filtered(
                posts_sorted_by_hot_or_not_feed_score@.take(i as int),
                is_nsfw,
                status,
            ),
        decreases n - i,
    {
        let item = posts_sorted_by_hot_or_not_feed_score[i];
        let passes_nsfw = match is_nsfw {
            Some(f) => item.is_nsfw == f,
            None => true,
        };
        let passes_status = match status {
            Some(st) => item.status == st,
            None => true,
        };
        proof {
            assert(posts_sorted_by_hot_or_not_feed_score@.take(i + 1).drop_last()
                =~= posts_sorted_by_hot_or_not_feed_score@.take(i as int));
            assert(posts_sorted_by_hot_or_not_feed_score@.take(i + 1).last()
                == posts_sorted_by_hot_or_not_feed_score@[i as int]);
        }
        if passes_nsfw && passes_status {
            filtered.push(item);
        }
        i += 1;
    }
    proof {
        assert(posts_sorted_by_hot_or_not_feed_score@.take(n as int)
            =~= posts_sorted_by_hot_or_not_feed_score@);
    }
    let total = filtered.len() as u64;
    let (from, count) = match get_pagination_bounds_cursor(from_inclusive_index, limit, total) {
        Ok(bounds) => bounds,
        Err(e) => {
            return Err(match e {
                PaginationError::InvalidBoundsPassed => TopPostsFetchError::InvalidBoundsPassed,
                PaginationError::ReachedEndOfItemsList => TopPostsFetchError::ReachedEndOfItemsList,
                PaginationError::ExceededMaxNumberOfItemsAllowedInOneRequest => TopPostsFetchError::ExceededMaxNumberOfItemsAllowedInOneRequest,
            });
        },
    };
    let mut page: Vec<PostScoreIndexItemV1> = Vec::new();
    let mut j: usize = from as usize;
    while j < (from + count) as usize
        invariant
            from + count <= filtered@.len(),
            from as int <= j as int <= from + count,
            page@ == filtered@.subrange(from as int, j as int),
        decreases from + count - j,
    {
        page.push(filtered[j]);
        proof {
            assert(page@ =~= filtered@.subrange(from as int, j as int + 1));
        }
        j += 1;
    }
    Ok(page)
}

} // verus!
