use vstd::prelude::*;

verus! {

/// The envelope every successful answer is wrapped in.
pub struct DataResponse<T> {
    pub data: T,
}

/// Filters and paging of a challenge listing.
pub struct ListChallengesQuery {
    pub category: Option<String>,
    pub challenge_type: Option<String>,
    pub active: Option<bool>,
    pub limit: Option<i64>,
    pub offset: Option<i64>,
}

/// A request to join a challenge.
pub struct JoinChallengeRequest {
    pub callsign: String,
    pub device_name: Option<String>,
    pub invite_token: Option<String>,
}

/// Callsigns to look for among registered users.
pub struct FriendSuggestionsBody {
    pub callsigns: Vec<String>,
}

/// A user search.
pub struct SearchUsersQuery {
    pub q: String,
}

/// The text fields of a badge upload.
pub struct CreateBadgeFields {
    pub name: String,
    pub tier_id: Option<String>,
}

/// Paging of the activity feed.
pub struct FeedQuery {
    pub limit: Option<i64>,
    pub filter: Option<String>,
    pub before: Option<String>,
}

/// Where the activity feed continues.
pub struct FeedPagination {
    pub has_more: bool,
    pub next_cursor: Option<String>,
}

/// The page size a challenge listing asks for: at most 100, 50 by default.
pub open spec fn listing_limit(q: ListChallengesQuery) -> i64 {
    match q.limit {
        Some(l) => if l < 100 {
            l
        } else {
            100
        },
        None => 50,
    }
}

/// The number of challenges a listing skips, 0 by default.
pub open spec fn listing_offset(q: ListChallengesQuery) -> i64 {
    match q.offset {
        Some(o) => o,
        None => 0,
    }
}

impl ListChallengesQuery {
    /// The (limit, offset) pair a listing uses.
    pub fn page(&self) -> (r: (i64, i64))
        ensures
            r == (listing_limit(*self), listing_offset(*self)),
    {
        let limit = match self.limit {
            Some(l) => if l < 100 {
                l
            } else {
                100
            },
            None => 50,
        };
        let offset = match self.offset {
            Some(o) => o,
            None => 0,
        };
        (limit, offset)
    }
}

} // verus!
