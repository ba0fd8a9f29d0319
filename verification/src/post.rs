//! Posts and their frontend-facing details: creation, status, likes, share
//! counts, view statistics and the two feed-ranking scores.
//!
//! Wall-clock times are carried as milliseconds since the epoch; principals
//! as plain numeric identifiers (see [`crate::constant::ANONYMOUS_PRINCIPAL_ID`]).

use vstd::prelude::*;

use crate::hot_or_not::{spec_bet_in, spec_hot_or_not_wf, spec_one_bet_per_principal, spec_slot_room_bound, spec_slot_wf, AggregateStats, HotOrNotDetails};
use crate::omap::OrdMap;

verus! {

#[derive(Clone, Copy, PartialEq, Eq, Structural, Debug)]
pub enum PostStatus {
    Uploaded,
    Transcoding,
    CheckingExplicitness,
    ReadyToView,
    BannedForExplicitness,
    BannedDueToUserReporting,
    Deleted,
}

pub struct PostDetailsFromFrontend {
    pub is_nsfw: bool,
    pub description: String,
    pub hashtags: Vec<String>,
    pub video_uid: String,
    pub creator_consent_for_inclusion_in_hot_or_not: bool,
}

pub enum PostViewDetailsFromFrontend {
    WatchedPartially { percentage_watched: u8 },
    WatchedMultipleTimes { watch_count: u8, percentage_watched: u8 },
}

#[derive(Clone, Copy, PartialEq, Eq, Structural, Debug)]
pub struct PostViewStatistics {
    pub total_view_count: u64,
    pub threshold_view_count: u64,
    pub average_watch_percentage: u8,
}

/// What the frontend shows about the profile that owns this actor.
pub struct UserProfileDetailsForFrontend {
    pub display_name: Option<String>,
    pub unique_user_name: Option<String>,
    pub principal_id: u64,
    pub profile_picture_url: Option<String>,
}

pub struct PostDetailsForFrontend {
    pub id: u64,
    pub created_by_display_name: Option<String>,
    pub created_by_unique_user_name: Option<String>,
    pub created_by_user_principal_id: u64,
    pub created_by_profile_photo_url: Option<String>,
    pub created_at: u64,
    pub description: String,
    pub hashtags: Vec<String>,
    pub video_uid: String,
    pub status: PostStatus,
    pub total_view_count: u64,
    pub like_count: u64,
    pub liked_by_me: bool,
    pub home_feed_ranking_score: u64,
    pub hot_or_not_feed_ranking_score: Option<u64>,
}

pub struct Post {
    pub id: u64,
    pub is_nsfw: bool,
    pub description: String,
    pub hashtags: Vec<String>,
    pub video_uid: String,
    pub status: PostStatus,
    /// Creation time, in milliseconds since the epoch.
    pub created_at: u64,
    /// Principals that like this post (used as a set).
    pub likes: OrdMap<()>,
    pub share_count: u64,
    pub view_stats: PostViewStatistics,
    pub homefeed_ranking_score: u64,
    pub creator_consent_for_inclusion_in_hot_or_not: bool,
    pub hot_or_not_details: Option<HotOrNotDetails>,
}

/// The home-feed ranking score, as unbounded-integer arithmetic; the stored
/// score is this value truncated to `u64`.
pub open spec fn spec_home_feed_score(
    likes_count: nat,
    view_stats: PostViewStatistics,
    share_count: u64,
    created_at: u64,
    now: u64,
) -> int {
    let total = view_stats.total_view_count;
    let likes_component: int = if total == 0 {
        0
    } else {
        1000 * (likes_count as int) * 10 / (total as int)
    };
    let threshold_views_component: int = if total == 0 {
        0
    } else {
        1000 * view_stats.threshold_view_count / (total as int)
    };
    let average_percent_viewed_component: int = 1000 * view_stats.average_watch_percentage;
    let post_share_component: int = if total == 0 {
        0
    } else {
        1000 * share_count * 100 / (total as int)
    };
    likes_component + threshold_views_component + average_percent_viewed_component
        + post_share_component + spec_age_component(created_at, now)
}

/// Freshness bonus: 1000, minus 50 per four hours of age, floored at zero.
pub open spec fn spec_age_component(created_at: u64, now: u64) -> int {
    let elapsed_secs: int = if now >= created_at {
        (now - created_at) / 1000
    } else {
        0
    };
    let subtracting_factor: int = elapsed_secs / (60int * 60 * 4);
    if subtracting_factor >= 20 {
        0
    } else {
        1000 - 50 * subtracting_factor
    }
}

/// The hot-or-not-feed ranking score, as unbounded-integer arithmetic.
pub open spec fn spec_hot_or_not_feed_score(
    likes_count: nat,
    upvotes_count: nat,
    downvotes_count: nat,
    view_stats: PostViewStatistics,
    share_count: u64,
    created_at: u64,
    now: u64,
) -> int {
    let total = view_stats.total_view_count as int;
    let likes_component: int = if total == 0 {
        0
    } else {
        1000 * (likes_count as int) * 10 / (total as int)
    };
    let hots_ratio: int = (upvotes_count as int) / (upvotes_count + downvotes_count + 1) as int;
    let absolute_calc_for_hots_ratio: int = abs_int(hots_ratio * 1000 - 500);
    let hots_ratio_component: int = 1000 * (1000 - absolute_calc_for_hots_ratio * 2);
    let threshold_views_component: int = 1000 * view_stats.threshold_view_count / total;
    let average_percent_viewed_component: int = 1000 * view_stats.average_watch_percentage;
    let post_share_component: int = 1000 * share_count * 100 / total;
    let hot_or_not_participation_component: int = 1000 * (((upvotes_count + downvotes_count)
        as int) / total);
    likes_component + hots_ratio_component + threshold_views_component
        + average_percent_viewed_component + post_share_component
        + hot_or_not_participation_component + spec_age_component(created_at, now)
}

pub open spec fn abs_int(x: int) -> int {
    if x < 0 {
        -x
    } else {
        x
    }
}

/// The running average watch percentage after `additional_views` more views,
/// the last of which watched `percentage_watched` percent and the earlier
/// ones 100 percent; truncated to `u8` as stored.
pub open spec fn spec_average_watched(
    view_stats: PostViewStatistics,
    percentage_watched: u8,
    additional_views: u8,
) -> int {
    (view_stats.average_watch_percentage * view_stats.total_view_count + 100 * (additional_views
        - 1) + percentage_watched) / (view_stats.total_view_count + additional_views)
}

impl Post {
    /// Number of principals liking the post.
    pub open spec fn spec_like_count(self) -> nat {
        self.likes.spec_len()
    }

    pub fn new(
        id: u64,
        post_details_from_frontend: PostDetailsFromFrontend,
        created_at: u64,
    ) -> (r: Post)
        ensures
            r.wf(),
            r.id == id,
            r.is_nsfw == post_details_from_frontend.is_nsfw,
            r.description == post_details_from_frontend.description,
            r.hashtags == post_details_from_frontend.hashtags,
            r.video_uid == post_details_from_frontend.video_uid,
            r.status == PostStatus::Uploaded,
            r.created_at == created_at,
            r.spec_like_count() == 0,
            r.share_count == 0,
            r.view_stats == (PostViewStatistics {
                total_view_count: 1,
                threshold_view_count: 0,
                average_watch_percentage: 0,
            }),
            r.homefeed_ranking_score == 0,
            r.creator_consent_for_inclusion_in_hot_or_not
                == post_details_from_frontend.creator_consent_for_inclusion_in_hot_or_not,
            post_details_from_frontend.creator_consent_for_inclusion_in_hot_or_not
                ==> match r.hot_or_not_details {
                Some(h) => {
                    &&& h.score == 0
                    &&& h.upvotes.spec_len() == 0
                    &&& h.downvotes.spec_len() == 0
                    &&& h.aggregate_stats == (AggregateStats {
                        total_number_of_hot_bets: 0,
                        total_number_of_not_bets: 0,
                        total_amount_bet: 0,
                    })
                    &&& h.slot_history@ == Map::<u64, crate::hot_or_not::SlotDetails>::empty()
                },
                None => false,
            },
            !post_details_from_frontend.creator_consent_for_inclusion_in_hot_or_not
                ==> r.hot_or_not_details is None,
    {
        let consent = post_details_from_frontend.creator_consent_for_inclusion_in_hot_or_not;
        let hot_or_not_details = if consent {
            Some(HotOrNotDetails::new())
        } else {
            None
        };
        Post {
            id,
            is_nsfw: post_details_from_frontend.is_nsfw,
            description: post_details_from_frontend.description,
            hashtags: post_details_from_frontend.hashtags,
            video_uid: post_details_from_frontend.video_uid,
            status: PostStatus::Uploaded,
            created_at,
            likes: OrdMap::new(),
            share_count: 0,
            view_stats: PostViewStatistics {
                total_view_count: 1,
                threshold_view_count: 0,
                average_watch_percentage: 0,
            },
            homefeed_ranking_score: 0,
            creator_consent_for_inclusion_in_hot_or_not: consent,
            hot_or_not_details,
        }
    }

    pub fn update_status(&mut self, status: PostStatus)
        ensures
            *final(self) == (Post { status, ..*old(self) }),
    {
        self.status = status;
    }

    pub fn toggle_like_status(&mut self, user_principal_id: u64, current_time: u64) -> (r: bool)
        requires
            old(self).wf(),
        ensures
            final(self).wf(),
            r == !old(self).likes@.contains_key(user_principal_id),
            final(self).likes@ == (if old(self).likes@.contains_key(user_principal_id) {
                old(self).likes@.remove(user_principal_id)
            } else {
                old(self).likes@.insert(user_principal_id, ())
            }),
            final(self).homefeed_ranking_score == spec_home_feed_score(
                final(self).spec_like_count(),
                old(self).view_stats,
                old(self).share_count,
                old(self).created_at,
                current_time,
            ) as u64,
            *final(self) == (Post {
                likes: final(self).likes,
                homefeed_ranking_score: final(self).homefeed_ranking_score,
                ..*old(self)
            }),
    {
        if self.likes.contains_key(user_principal_id) {
            self.likes.remove(user_principal_id);
            self.recalculate_home_feed_score(current_time);
            false
        } else {
            self.likes.insert(user_principal_id, ());
            self.recalculate_home_feed_score(current_time);
            true
        }
    }

    pub fn increment_share_count(&mut self, current_time: u64) -> (r: u64)
        requires
            old(self).wf(),
            old(self).share_count < u64::MAX,
        ensures
            final(self).wf(),
            final(self).share_count == old(self).share_count + 1,
            r == final(self).share_count,
            final(self).homefeed_ranking_score == spec_home_feed_score(
                old(self).spec_like_count(),
                old(self).view_stats,
                (old(self).share_count + 1) as u64,
                old(self).created_at,
                current_time,
            ) as u64,
            *final(self) == (Post {
                share_count: final(self).share_count,
                homefeed_ranking_score: final(self).homefeed_ranking_score,
                ..*old(self)
            }),
    {
        self.share_count = self.share_count + 1;
        self.recalculate_home_feed_score(current_time);
        self.share_count
    }

    fn recalculate_average_watched(&self, percentage_watched: u8, additional_views: u8) -> (r: u8)
        requires
            additional_views >= 1,
        ensures
            r == spec_average_watched(self.view_stats, percentage_watched, additional_views) as u8,
    {
        let avg = self.view_stats.average_watch_percentage as u128;
        let total = self.view_stats.total_view_count as u128;
        let views = additional_views as u128;
        proof {
            assert(avg * total <= 255 * 0xffff_ffff_ffff_ffffu128) by (nonlinear_arith)
                requires
                    avg <= 255,
                    total <= 0xffff_ffff_ffff_ffffu128,
            ;
        }
        let numerator = avg * total + 100 * (views - 1) + (percentage_watched as u128);
        let denominator = total + views;
        (numerator / denominator) as u8
    }

    /// Recomputes the home-feed ranking score from likes, views, shares and
    /// the post's age; intermediate arithmetic is wide enough not to
    /// overflow, and the stored score is the truncation of the exact value.
    pub fn recalculate_home_feed_score(&mut self, current_time: u64)
        ensures
            final(self).homefeed_ranking_score == spec_home_feed_score(
                old(self).spec_like_count(),
                old(self).view_stats,
                old(self).share_count,
                old(self).created_at,
                current_time,
            ) as u64,
            *final(self) == (Post {
                homefeed_ranking_score: final(self).homefeed_ranking_score,
                ..*old(self)
            }),
    {
        proof {
            broadcast use vstd::arithmetic::div_mod::lemma_div_basics_5;
        }
        let total = self.view_stats.total_view_count;
        let likes_count = self.likes.len();
        let likes_component: u128 = if total == 0 {
            0
        } else {
            1000 * (likes_count as u128) * 10 / (total as u128)
        };
        let threshold_views_component: u128 = if total == 0 {
            0
        } else {
            1000 * (self.view_stats.threshold_view_count as u128) / (total as u128)
        };
        let average_percent_viewed_component: u128 = 1000 * (
        self.view_stats.average_watch_percentage as u128);
        let post_share_component: u128 = if total == 0 {
            0
        } else {
            1000 * (self.share_count as u128) * 100 / (total as u128)
        };
        let age_of_video_component: u128 = age_component(self.created_at, current_time) as u128;
        let score: u128 = likes_component + threshold_views_component
            + average_percent_viewed_component + post_share_component + age_of_video_component;
        self.homefeed_ranking_score = score as u64;
    }

    /// Recomputes the hot-or-not-feed ranking score; a no-op on a post that
    /// hosts no betting ledger.
    pub fn recalculate_hot_or_not_feed_score(&mut self, current_time: u64)
        requires
            old(self).wf(),
            old(self).hot_or_not_details is Some ==> old(self).view_stats.total_view_count >= 1,
        ensures
            final(self).wf(),
            old(self).hot_or_not_details is None ==> *final(self) == *old(self),
            old(self).hot_or_not_details is Some ==> {
                let h0 = old(self).hot_or_not_details->Some_0;
                let h1 = final(self).hot_or_not_details->Some_0;
                &&& final(self).hot_or_not_details is Some
                &&& h1 == (HotOrNotDetails { score: h1.score, ..h0 })
                &&& h1.score == spec_hot_or_not_feed_score(
                    old(self).spec_like_count(),
                    h0.upvotes.spec_len(),
                    h0.downvotes.spec_len(),
                    old(self).view_stats,
                    old(self).share_count,
                    old(self).created_at,
                    current_time,
                ) as u64
                &&& *final(self) == (Post {
                    hot_or_not_details: final(self).hot_or_not_details,
                    ..*old(self)
                })
            },
    {
        proof {
            broadcast use vstd::arithmetic::div_mod::lemma_div_basics_5;
        }
        let likes_count = self.likes.len();
        match self.hot_or_not_details.take() {
            None => {},
            Some(mut h) => {
                let total = self.view_stats.total_view_count as u128;
                let upvotes_count = h.upvotes.len() as u128;
                let downvotes_count = h.downvotes.len() as u128;
                let likes_component: u128 = 1000 * (likes_count as u128) * 10 / total;
                let hots_ratio: u128 = upvotes_count / (upvotes_count + downvotes_count + 1);
                proof {
                    assert(hots_ratio == 0) by {
                        assert(upvotes_count < upvotes_count + downvotes_count + 1);
                        vstd::arithmetic::div_mod::lemma_basic_div(
                            upvotes_count as int,
                            (upvotes_count + downvotes_count + 1) as int,
                        );
                    }
                }
                let signed_calc: i128 = (hots_ratio * 1000) as i128 - 500;
                let absolute_calc_for_hots_ratio: i128 = if signed_calc < 0 {
                    -signed_calc
                } else {
                    signed_calc
                };
                let hots_ratio_component: u128 = 1000 * ((1000 - absolute_calc_for_hots_ratio * 2)
                    as u128);
                let threshold_views_component: u128 = 1000 * (
                self.view_stats.threshold_view_count as u128) / total;
                let average_percent_viewed_component: u128 = 1000 * (
                self.view_stats.average_watch_percentage as u128);
                let post_share_component: u128 = 1000 * (self.share_count as u128) * 100 / total;
                let hot_or_not_participation_component: u128 = 1000 * ((upvotes_count
                    + downvotes_count) / total);
                let age_of_video_component: u128 = age_component(
                    self.created_at,
                    current_time,
                ) as u128;
                let score: u128 = likes_component + hots_ratio_component
                    + threshold_views_component + average_percent_viewed_component
                    + post_share_component + hot_or_not_participation_component
                    + age_of_video_component;
                h.score = score as u64;
                proof {
                    let h0 = old(self).hot_or_not_details->Some_0;
                    assert(h.slot_history == h0.slot_history);
                    assert forall|s2: u64| h.slot_history@.contains_key(s2) implies spec_slot_wf(
                        #[trigger] h.slot_history@[s2],
                    ) && spec_slot_room_bound(h.slot_history@[s2], h) by {
                        assert(spec_slot_wf(h0.slot_history@[s2]));
                        assert(spec_slot_room_bound(h0.slot_history@[s2], h0));
                    }
                    assert(spec_one_bet_per_principal(h)) by {
                        assert forall|s1: u64, r1: u64, s2: u64, r2: u64, p: u64|
                            #[trigger] spec_bet_in(h, s1, r1, p) && #[trigger] spec_bet_in(
                            h,
                            s2,
                            r2,
                            p,
                        ) implies s1 == s2 && r1 == r2 by {
                            assert(spec_bet_in(h0, s1, r1, p));
                            assert(spec_bet_in(h0, s2, r2, p));
                        }
                    }
                    assert(spec_hot_or_not_wf(h));
                }
                self.hot_or_not_details = Some(h);
            },
        }
    }

    pub fn add_view_details(
        &mut self,
        details: PostViewDetailsFromFrontend,
        current_time: u64,
    )
        requires
            old(self).wf(),
            match details {
                PostViewDetailsFromFrontend::WatchedPartially { percentage_watched } => {
                    &&& 0 < percentage_watched <= 100
                    &&& old(self).view_stats.total_view_count + 1 <= u64::MAX
                    &&& old(self).view_stats.threshold_view_count + 1 <= u64::MAX
                },
                PostViewDetailsFromFrontend::WatchedMultipleTimes {
                    watch_count,
                    percentage_watched,
                } => {
                    &&& 0 < percentage_watched <= 100
                    &&& watch_count >= 1
                    &&& old(self).view_stats.total_view_count + watch_count <= u64::MAX
                    &&& old(self).view_stats.threshold_view_count + watch_count <= u64::MAX
                },
            },
        ensures
            final(self).wf(),
            final(self).view_stats == spec_view_stats_after(old(self).view_stats, details),
            final(self).homefeed_ranking_score == spec_home_feed_score(
                old(self).spec_like_count(),
                final(self).view_stats,
                old(self).share_count,
                old(self).created_at,
                current_time,
            ) as u64,
            *final(self) == (Post {
                view_stats: final(self).view_stats,
                homefeed_ranking_score: final(self).homefeed_ranking_score,
                ..*old(self)
            }),
    {
        match details {
            PostViewDetailsFromFrontend::WatchedPartially { percentage_watched } => {
                self.view_stats.average_watch_percentage = self.recalculate_average_watched(
                    percentage_watched,
                    1,
                );
                self.view_stats.total_view_count = self.view_stats.total_view_count + 1;
                if percentage_watched > 20 {
                    self.view_stats.threshold_view_count = self.view_stats.threshold_view_count
                        + 1;
                }
            },
            PostViewDetailsFromFrontend::WatchedMultipleTimes {
                watch_count,
                percentage_watched,
            } => {
                self.view_stats.average_watch_percentage = self.recalculate_average_watched(
                    percentage_watched,
                    watch_count,
                );
                self.view_stats.total_view_count = self.view_stats.total_view_count + (
                watch_count as u64);
                if watch_count > 1 {
                    self.view_stats.threshold_view_count = self.view_stats.threshold_view_count
                        + ((watch_count - 1) as u64);
                }
                if percentage_watched > 20 {
                    self.view_stats.threshold_view_count = self.view_stats.threshold_view_count
                        + 1;
                }
            },
        }
        self.recalculate_home_feed_score(current_time);
    }

    pub fn get_post_details_for_frontend_for_this_post(
        &self,
        user_profile: UserProfileDetailsForFrontend,
        caller: u64,
    ) -> (r: PostDetailsForFrontend)
        requires
            self.wf(),
        ensures
            r.id == self.id,
            r.created_by_display_name == user_profile.display_name,
            r.created_by_unique_user_name == user_profile.unique_user_name,
            r.created_by_user_principal_id == user_profile.principal_id,
            r.created_by_profile_photo_url == user_profile.profile_picture_url,
            r.created_at == self.created_at,
            r.description == self.description,
            r.hashtags@ == self.hashtags@,
            r.video_uid == self.video_uid,
            r.status == self.status,
            r.total_view_count == self.view_stats.total_view_count,
            r.like_count == self.spec_like_count(),
            r.liked_by_me == self.likes@.contains_key(caller),
            r.home_feed_ranking_score == self.homefeed_ranking_score,
            r.hot_or_not_feed_ranking_score == match self.hot_or_not_details {
                Some(h) => Some(h.score),
                None => None::<u64>,
            },
    {
        let hot_or_not_feed_ranking_score = match &self.hot_or_not_details {
            Some(h) => Some(h.score),
            None => None,
        };
        PostDetailsForFrontend {
            id: self.id,
            created_by_display_name: user_profile.display_name,
            created_by_unique_user_name: user_profile.unique_user_name,
            created_by_user_principal_id: user_profile.principal_id,
            created_by_profile_photo_url: user_profile.profile_picture_url,
            created_at: self.created_at,
            description: self.description.clone(),
            hashtags: clone_string_vec(&self.hashtags),
            video_uid: self.video_uid.clone(),
            status: self.status,
            total_view_count: self.view_stats.total_view_count,
            like_count: self.likes.len() as u64,
            liked_by_me: self.likes.contains_key(caller),
            home_feed_ranking_score: self.homefeed_ranking_score,
            hot_or_not_feed_ranking_score,
        }
    }
}

/// The view statistics after one watch report is folded in.
pub open spec fn spec_view_stats_after(
    vs: PostViewStatistics,
    details: PostViewDetailsFromFrontend,
) -> PostViewStatistics {
    match details {
        PostViewDetailsFromFrontend::WatchedPartially { percentage_watched } => PostViewStatistics {
            total_view_count: (vs.total_view_count + 1) as u64,
            threshold_view_count: (vs.threshold_view_count + (if percentage_watched > 20 {
                1int
            } else {
                0int
            })) as u64,
            average_watch_percentage: spec_average_watched(vs, percentage_watched, 1) as u8,
        },
        PostViewDetailsFromFrontend::WatchedMultipleTimes {
            watch_count,
            percentage_watched,
        } => PostViewStatistics {
            total_view_count: (vs.total_view_count + watch_count) as u64,
            threshold_view_count: (vs.threshold_view_count + (if watch_count > 1 {
                watch_count - 1
            } else {
                0int
            }) + (if percentage_watched > 20 {
                1int
            } else {
                0int
            })) as u64,
            average_watch_percentage: spec_average_watched(vs, percentage_watched, watch_count)
                as u8,
        },
    }
}

/// The freshness component, computed exactly as `spec_age_component`.
fn age_component(created_at: u64, now: u64) -> (r: u64)
    ensures
        r == spec_age_component(created_at, now),
{
    let elapsed_secs: u64 = if now >= created_at {
        (now - created_at) / 1000
    } else {
        0
    };
    let subtracting_factor = elapsed_secs / (60 * 60 * 4);
    if subtracting_factor >= 20 {
        0
    } else {
        1000 - 50 * subtracting_factor
    }
}

/// Clones a vector of strings, element for element.
fn clone_string_vec(v: &Vec<String>) -> (r: Vec<String>)
    ensures
        r@ == v@,
{
    let mut r: Vec<String> = Vec::new();
    let n = v.len();
    let mut i: usize = 0;
    while i < n
        invariant
            n == v@.len(),
            0 <= i <= n,
            r@.len() == i,
            forall|j: int| 0 <= j < i ==> r@[j] == v@[j],
        decreases n - i,
    {
        r.push(v[i].clone());
        i += 1;
    }
    proof {
        assert(r@ =~= v@);
    }
    r
}


} // verus!
