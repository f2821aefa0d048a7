use vstd::prelude::*;

verus! {

/// The failures the service reports. Identifiers are the 128-bit values of UUIDs.
pub enum AppError {
    ChallengeNotFound { challenge_id: u128 },
    BadgeNotFound { badge_id: u128 },
    InviteNotFound { token: String },
    UserNotFound { user_id: u128 },
    FriendInviteNotFound { token: String },
    FriendInviteUsed { token: String },
    FriendRequestNotFound { request_id: u128 },
    FriendshipNotFound { friendship_id: u128 },
    AlreadyFriends,
    FriendRequestExists,
    CannotFriendSelf,
    AlreadyJoined,
    NotParticipating,
    InviteRequired,
    InviteExpired,
    InviteExhausted,
    MaxParticipants,
    ChallengeEnded,
    InvalidToken,
    Forbidden,
    RateLimited,
    Validation { message: String },
    /// The store failed; the text is its own description.
    Database(String),
    Internal(String),
}

/// The HTTP status each failure is answered with.
pub open spec fn status_of(e: AppError) -> u16 {
    match e {
        AppError::ChallengeNotFound { .. } => 404,
        AppError::BadgeNotFound { .. } => 404,
        AppError::InviteNotFound { .. } => 404,
        AppError::UserNotFound { .. } => 404,
        AppError::FriendInviteNotFound { .. } => 404,
        AppError::FriendInviteUsed { .. } => 410,
        AppError::FriendRequestNotFound { .. } => 404,
        AppError::FriendshipNotFound { .. } => 404,
        AppError::AlreadyFriends => 409,
        AppError::FriendRequestExists => 409,
        AppError::CannotFriendSelf => 422,
        AppError::AlreadyJoined => 409,
        AppError::NotParticipating => 403,
        AppError::InviteRequired => 403,
        AppError::InviteExpired => 403,
        AppError::InviteExhausted => 403,
        AppError::MaxParticipants => 403,
        AppError::ChallengeEnded => 400,
        AppError::InvalidToken => 401,
        AppError::Forbidden => 403,
        AppError::RateLimited => 429,
        AppError::Validation { .. } => 400,
        AppError::Database(_) => 500,
        AppError::Internal(_) => 500,
    }
}

/// The machine-readable code of each failure.
pub open spec fn code_of(e: AppError) -> Seq<char> {
    match e {
        AppError::ChallengeNotFound { .. } => "CHALLENGE_NOT_FOUND"@,
        AppError::BadgeNotFound { .. } => "BADGE_NOT_FOUND"@,
        AppError::InviteNotFound { .. } => "INVITE_NOT_FOUND"@,
        AppError::UserNotFound { .. } => "USER_NOT_FOUND"@,
        AppError::FriendInviteNotFound { .. } => "FRIEND_INVITE_NOT_FOUND"@,
        AppError::FriendInviteUsed { .. } => "FRIEND_INVITE_USED"@,
        AppError::FriendRequestNotFound { .. } => "FRIEND_REQUEST_NOT_FOUND"@,
        AppError::FriendshipNotFound { .. } => "FRIENDSHIP_NOT_FOUND"@,
        AppError::AlreadyFriends => "ALREADY_FRIENDS"@,
        AppError::FriendRequestExists => "FRIEND_REQUEST_EXISTS"@,
        AppError::CannotFriendSelf => "CANNOT_FRIEND_SELF"@,
        AppError::AlreadyJoined => "ALREADY_JOINED"@,
        AppError::NotParticipating => "NOT_PARTICIPATING"@,
        AppError::InviteRequired => "INVITE_REQUIRED"@,
        AppError::InviteExpired => "INVITE_EXPIRED"@,
        AppError::InviteExhausted => "INVITE_EXHAUSTED"@,
        AppError::MaxParticipants => "MAX_PARTICIPANTS"@,
        AppError::ChallengeEnded => "CHALLENGE_ENDED"@,
        AppError::InvalidToken => "INVALID_TOKEN"@,
        AppError::Forbidden => "FORBIDDEN"@,
        AppError::RateLimited => "RATE_LIMITED"@,
        AppError::Validation { .. } => "VALIDATION_ERROR"@,
        AppError::Database(_) => "INTERNAL_ERROR"@,
        AppError::Internal(_) => "INTERNAL_ERROR"@,
    }
}

/// The summary line of each failure, before any detail.
pub open spec fn summary_of(e: AppError) -> Seq<char> {
    match e {
        AppError::ChallengeNotFound { .. } => "Challenge not found"@,
        AppError::BadgeNotFound { .. } => "Badge not found"@,
        AppError::InviteNotFound { .. } => "Invite not found"@,
        AppError::UserNotFound { .. } => "User not found"@,
        AppError::FriendInviteNotFound { .. } => "Friend invite not found or expired"@,
        AppError::FriendInviteUsed { .. } => "Friend invite has already been used"@,
        AppError::FriendRequestNotFound { .. } => "Friend request not found"@,
        AppError::FriendshipNotFound { .. } => "Friendship not found"@,
        AppError::AlreadyFriends => "Already friends with this user"@,
        AppError::FriendRequestExists => "Friend request already exists"@,
        AppError::CannotFriendSelf => "Cannot send friend request to yourself"@,
        AppError::AlreadyJoined => "Already joined this challenge"@,
        AppError::NotParticipating => "Not participating in this challenge"@,
        AppError::InviteRequired => "Invite token required"@,
        AppError::InviteExpired => "Invite token expired"@,
        AppError::InviteExhausted => "Invite token exhausted"@,
        AppError::MaxParticipants => "Challenge at maximum participants"@,
        AppError::ChallengeEnded => "Challenge has ended"@,
        AppError::InvalidToken => "Invalid or revoked token"@,
        AppError::Forbidden => "Forbidden"@,
        AppError::RateLimited => "Rate limit exceeded"@,
        AppError::Validation { .. } => "Validation error: "@,
        AppError::Database(_) => "Database error"@,
        AppError::Internal(_) => "Internal server error"@,
    }
}

/// The human-readable message of a failure.
pub open spec fn message_of(e: AppError) -> Seq<char> {
    match e {
        AppError::Validation { message } => summary_of(e) + message@,
        _ => summary_of(e),
    }
}

impl AppError {
    /// The HTTP status this failure is answered with.
    pub fn status_code(&self) -> (r: u16)
        ensures
            r == status_of(*self),
    {
        match self {
            AppError::ChallengeNotFound { .. } => 404,
            AppError::BadgeNotFound { .. } => 404,
            AppError::InviteNotFound { .. } => 404,
            AppError::UserNotFound { .. } => 404,
            AppError::FriendInviteNotFound { .. } => 404,
            AppError::FriendInviteUsed { .. } => 410,
            AppError::FriendRequestNotFound { .. } => 404,
            AppError::FriendshipNotFound { .. } => 404,
            AppError::AlreadyFriends => 409,
            AppError::FriendRequestExists => 409,
            AppError::CannotFriendSelf => 422,
            AppError::AlreadyJoined => 409,
            AppError::NotParticipating => 403,
            AppError::InviteRequired => 403,
            AppError::InviteExpired => 403,
            AppError::InviteExhausted => 403,
            AppError::MaxParticipants => 403,
            AppError::ChallengeEnded => 400,
            AppError::InvalidToken => 401,
            AppError::Forbidden => 403,
            AppError::RateLimited => 429,
            AppError::Validation { .. } => 400,
            AppError::Database(_) => 500,
            AppError::Internal(_) => 500,
        }
    }

    /// The machine-readable code of this failure.
    pub fn code(&self) -> (r: &'static str)
        ensures
            r@ == code_of(*self),
    {
        match self {
            AppError::ChallengeNotFound { .. } => "CHALLENGE_NOT_FOUND",
            AppError::BadgeNotFound { .. } => "BADGE_NOT_FOUND",
            AppError::InviteNotFound { .. } => "INVITE_NOT_FOUND",
            AppError::UserNotFound { .. } => "USER_NOT_FOUND",
            AppError::FriendInviteNotFound { .. } => "FRIEND_INVITE_NOT_FOUND",
            AppError::FriendInviteUsed { .. } => "FRIEND_INVITE_USED",
            AppError::FriendRequestNotFound { .. } => "FRIEND_REQUEST_NOT_FOUND",
            AppError::FriendshipNotFound { .. } => "FRIENDSHIP_NOT_FOUND",
            AppError::AlreadyFriends => "ALREADY_FRIENDS",
            AppError::FriendRequestExists => "FRIEND_REQUEST_EXISTS",
            AppError::CannotFriendSelf => "CANNOT_FRIEND_SELF",
            AppError::AlreadyJoined => "ALREADY_JOINED",
            AppError::NotParticipating => "NOT_PARTICIPATING",
            AppError::InviteRequired => "INVITE_REQUIRED",
            AppError::InviteExpired => "INVITE_EXPIRED",
            AppError::InviteExhausted => "INVITE_EXHAUSTED",
            AppError::MaxParticipants => "MAX_PARTICIPANTS",
            AppError::ChallengeEnded => "CHALLENGE_ENDED",
            AppError::InvalidToken => "INVALID_TOKEN",
            AppError::Forbidden => "FORBIDDEN",
            AppError::RateLimited => "RATE_LIMITED",
            AppError::Validation { .. } => "VALIDATION_ERROR",
            AppError::Database(_) => "INTERNAL_ERROR",
            AppError::Internal(_) => "INTERNAL_ERROR",
        }
    }

    /// The human-readable summary of this failure.
    pub fn message(&self) -> (r: String)
        ensures
            r@ == message_of(*self),
    {
        let text = match self {
            AppError::ChallengeNotFound { .. } => "Challenge not found",
            AppError::BadgeNotFound { .. } => "Badge not found",
            AppError::InviteNotFound { .. } => "Invite not found",
            AppError::UserNotFound { .. } => "User not found",
            AppError::FriendInviteNotFound { .. } => "Friend invite not found or expired",
            AppError::FriendInviteUsed { .. } => "Friend invite has already been used",
            AppError::FriendRequestNotFound { .. } => "Friend request not found",
            AppError::FriendshipNotFound { .. } => "Friendship not found",
            AppError::AlreadyFriends => "Already friends with this user",
            AppError::FriendRequestExists => "Friend request already exists",
            AppError::CannotFriendSelf => "Cannot send friend request to yourself",
            AppError::AlreadyJoined => "Already joined this challenge",
            AppError::NotParticipating => "Not participating in this challenge",
            AppError::InviteRequired => "Invite token required",
            AppError::InviteExpired => "Invite token expired",
            AppError::InviteExhausted => "Invite token exhausted",
            AppError::MaxParticipants => "Challenge at maximum participants",
            AppError::ChallengeEnded => "Challenge has ended",
            AppError::InvalidToken => "Invalid or revoked token",
            AppError::Forbidden => "Forbidden",
            AppError::RateLimited => "Rate limit exceeded",
            AppError::Validation { .. } => "Validation error: ",
            AppError::Database(_) => "Database error",
            AppError::Internal(_) => "Internal server error",
        };
        assert(text@ == summary_of(*self));
        let mut out = String::from_str(text);
        if let AppError::Validation { message } = self {
            out.append(message.as_str());
        }
        out
    }
}

} // verus!
