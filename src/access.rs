use vstd::prelude::*;
use vstd::string::*;

use crate::error::AppError;
use crate::json::{bool_of, field, text_eq, JsonValue};
use crate::store::{texts, to_upper, upper_of};

verus! {

/// Largest accepted badge image, in bytes.
pub const MAX_BADGE_SIZE: usize = 1048576;

/// Most callsigns looked at in one friend-suggestion request.
pub const MAX_SUGGESTION_CALLSIGNS: usize = 100;

/// The token of an `Authorization` header of the form `Bearer <token>`.
pub open spec fn bearer_of(h: Seq<char>) -> Option<Seq<char>> {
    if h.len() >= 7 && h.take(7) == "Bearer "@ {
        Some(h.skip(7))
    } else {
        None
    }
}

/// The token of an `Authorization` header, if it has the `Bearer ` form.
pub fn bearer_token(header: &str) -> (r: Option<&str>)
    ensures
        match r {
            Some(t) => bearer_of(header@) == Some(t@),
            None => bearer_of(header@) is None,
        },
{
    let n = header.unicode_len();
    if n < 7 {
        return None;
    }
    let head = header.substring_char(0, 7);
    if text_eq(head, "Bearer ") {
        Some(header.substring_char(7, n))
    } else {
        None
    }
}

/// Admits a request carrying the administrator's token as a bearer token;
/// anything else is `InvalidToken`.
pub fn authorize_admin(header: Option<&str>, admin_token: &str) -> (r: Result<(), AppError>)
    ensures
        match header {
            Some(h) => match bearer_of(h@) {
                Some(t) => if t == admin_token@ {
                    r is Ok
                } else {
                    r matches Err(AppError::InvalidToken)
                },
                None => r matches Err(AppError::InvalidToken),
            },
            None => r matches Err(AppError::InvalidToken),
        },
{
    let h = match header {
        Some(h) => h,
        None => {
            return Err(AppError::InvalidToken);
        },
    };
    match bearer_token(h) {
        Some(t) => if text_eq(t, admin_token) {
            Ok(())
        } else {
            Err(AppError::InvalidToken)
        },
        None => Err(AppError::InvalidToken),
    }
}

/// Whether a challenge's invite settings demand an invite token.
pub open spec fn requires_token(invite_config: Option<JsonValue>) -> bool {
    match invite_config {
        Some(c) => bool_of(field(c, "requiresToken"@)) == Some(true),
        None => false,
    }
}

/// Decides whether a join may go ahead: an ended challenge refuses with
/// `ChallengeEnded`; one whose invite settings require a token refuses a
/// request without one with `InviteRequired`.
pub fn check_join(is_active: bool, invite_config: Option<&JsonValue>, has_invite_token: bool) -> (r: Result<(), AppError>)
    ensures
        !is_active ==> r matches Err(AppError::ChallengeEnded),
        is_active && requires_token(match invite_config {
            Some(c) => Some(*c),
            None => None,
        }) && !has_invite_token ==> r matches Err(AppError::InviteRequired),
        r is Ok <==> is_active && !(requires_token(match invite_config {
            Some(c) => Some(*c),
            None => None,
        }) && !has_invite_token),
{
    if !is_active {
        return Err(AppError::ChallengeEnded);
    }
    if let Some(cfg) = invite_config {
        let required = match cfg.get("requiresToken") {
            Some(v) => match v.as_bool() {
                Some(b) => b,
                None => false,
            },
            None => false,
        };
        if required && !has_invite_token {
            return Err(AppError::InviteRequired);
        }
    }
    Ok(())
}

/// `historicalQsosAllowed` of a challenge's configuration, true by default.
pub fn historical_allowed(config: &JsonValue) -> (r: bool)
    ensures
        r == match bool_of(field(*config, "historicalQsosAllowed"@)) {
            Some(b) => b,
            None => true,
        },
{
    match config.get("historicalQsosAllowed") {
        Some(v) => match v.as_bool() {
            Some(b) => b,
            None => true,
        },
        None => true,
    }
}

/// Whom a friend request is addressed to.
pub enum FriendTarget {
    /// A user named by identifier.
    User(u128),
    /// The owner of a friend invite.
    Invite(String),
}

/// Reads the addressee of a friend request: exactly one of a user identifier
/// and an invite token must be given.
pub fn friend_request_target(to_user_id: Option<u128>, invite_token: Option<String>) -> (r: Result<
    FriendTarget,
    AppError,
>)
    ensures
        match (to_user_id, invite_token) {
            (Some(u), None) => r matches Ok(FriendTarget::User(v)) && v == u,
            (None, Some(t)) => r matches Ok(FriendTarget::Invite(s)) && s@ == t@,
            (Some(_), Some(_)) => r matches Err(AppError::Validation { message }) && message@
                == "Provide either toUserId or inviteToken, not both"@,
            (None, None) => r matches Err(AppError::Validation { message }) && message@
                == "Either toUserId or inviteToken is required"@,
        },
{
    match (to_user_id, invite_token) {
        (Some(u), None) => Ok(FriendTarget::User(u)),
        (None, Some(t)) => Ok(FriendTarget::Invite(t)),
        (Some(_), Some(_)) => Err(
            AppError::Validation {
                message: String::from_str("Provide either toUserId or inviteToken, not both"),
            },
        ),
        (None, None) => Err(
            AppError::Validation { message: String::from_str("Either toUserId or inviteToken is required") },
        ),
    }
}

/// Decides whether a friend request from `sender` to `target` may be made:
/// not to oneself, not between friends, not when one is already pending
/// either way, checked in that order.
pub fn check_friend_request(sender: u128, target: u128, already_friends: bool, pending_exists: bool) -> (r: Result<
    (),
    AppError,
>)
    ensures
        sender == target ==> r matches Err(AppError::CannotFriendSelf),
        sender != target && already_friends ==> r matches Err(AppError::AlreadyFriends),
        sender != target && !already_friends && pending_exists ==> r matches Err(
            AppError::FriendRequestExists,
        ),
        r is Ok <==> sender != target && !already_friends && !pending_exists,
{
    if sender == target {
        Err(AppError::CannotFriendSelf)
    } else if already_friends {
        Err(AppError::AlreadyFriends)
    } else if pending_exists {
        Err(AppError::FriendRequestExists)
    } else {
        Ok(())
    }
}

/// Only the addressee of a friend request may answer it.
pub fn check_addressee(request_to: u128, user: u128) -> (r: Result<(), AppError>)
    ensures
        request_to == user <==> r is Ok,
        request_to != user ==> r matches Err(AppError::Forbidden),
{
    if request_to != user {
        Err(AppError::Forbidden)
    } else {
        Ok(())
    }
}

/// The first `MAX_SUGGESTION_CALLSIGNS` callsigns of a suggestion request.
pub fn cap_callsigns(callsigns: &Vec<String>) -> (r: Vec<String>)
    ensures
        texts(r@) == texts(callsigns@).take(
            if callsigns@.len() < MAX_SUGGESTION_CALLSIGNS {
                callsigns@.len() as int
            } else {
                MAX_SUGGESTION_CALLSIGNS as int
            },
        ),
{
    let n = if callsigns.len() < MAX_SUGGESTION_CALLSIGNS {
        callsigns.len()
    } else {
        MAX_SUGGESTION_CALLSIGNS
    };
    let mut r: Vec<String> = Vec::new();
    let mut i: usize = 0;
    while i < n
        invariant
            i <= n,
            n <= callsigns@.len(),
            r@.len() == i,
            forall|j: int| 0 <= j < i ==> #[trigger] r@[j]@ == callsigns@[j]@,
        decreases n - i,
    {
        r.push(callsigns[i].clone());
        i = i + 1;
    }
    assert(texts(r@) =~= texts(callsigns@).take(n as int));
    r
}

/// A user search runs only for a query of at least two bytes.
pub fn search_query_usable(q: &str) -> (r: bool)
    ensures
        r == (q.len() >= 2),
{
    q.len() >= 2
}

/// The badge image types accepted.
pub open spec fn allowed_image_type(t: Seq<char>) -> bool {
    t == "image/png"@ || t == "image/svg+xml"@ || t == "image/jpeg"@
}

/// Checks an uploaded badge image: its content type must be PNG, SVG or
/// JPEG, and it may hold at most `MAX_BADGE_SIZE` bytes.
pub fn check_badge_image(content_type: &str, size: usize) -> (r: Result<(), AppError>)
    ensures
        !allowed_image_type(content_type@) ==> (r matches Err(AppError::Validation { message }) && message@
            == "Invalid content type '"@ + content_type@ + "'. Allowed: PNG, JPEG, SVG"@),
        allowed_image_type(content_type@) && size > MAX_BADGE_SIZE ==> (r matches Err(
            AppError::Validation { message },
        ) && message@ == "Image too large. Maximum size is 1048576 bytes"@),
        r is Ok <==> allowed_image_type(content_type@) && size <= MAX_BADGE_SIZE,
{
    if !(text_eq(content_type, "image/png") || text_eq(content_type, "image/svg+xml") || text_eq(
        content_type,
        "image/jpeg",
    )) {
        let mut message = String::from_str("Invalid content type '");
        message.append(content_type);
        message.append("'. Allowed: PNG, JPEG, SVG");
        return Err(AppError::Validation { message });
    }
    if size > MAX_BADGE_SIZE {
        return Err(
            AppError::Validation { message: String::from_str("Image too large. Maximum size is 1048576 bytes") },
        );
    }
    Ok(())
}

/// The tier of an uploaded badge: an empty tier field means none.
pub fn badge_tier(value: String) -> (r: Option<String>)
    ensures
        value@.len() == 0 ==> r is None,
        value@.len() > 0 ==> (r matches Some(t) && t@ == value@),
{
    if value.unicode_len() == 0 {
        None
    } else {
        Some(value)
    }
}

/// Whether `c` has the Unicode `White_Space` property.
pub open spec fn is_space(c: char) -> bool {
    let u = c as u32;
    ||| 9 <= u <= 13
    ||| u == 32 || u == 0x85 || u == 0xA0 || u == 0x1680
    ||| 0x2000 <= u <= 0x200A
    ||| u == 0x2028 || u == 0x2029 || u == 0x202F || u == 0x205F || u == 0x3000
}

/// Relies on `char::is_whitespace`: whether a character has the Unicode
/// `White_Space` property.
#[verifier::external_body]
fn char_is_space(c: char) -> (r: bool)
    ensures
        r == is_space(c),
{
    c.is_whitespace()
}

/// A registration needs a callsign that is not blank: one made only of
/// white space (or empty) is refused.
pub fn check_register_callsign(callsign: &str) -> (r: Result<(), AppError>)
    ensures
        (forall|i: int| 0 <= i < callsign@.len() ==> is_space(#[trigger] callsign@[i])) ==> (r matches Err(
            AppError::Validation { message },
        ) && message@ == "callsign is required"@),
        r is Ok <==> exists|i: int| 0 <= i < callsign@.len() && !is_space(#[trigger] callsign@[i]),
{
    let n = callsign.unicode_len();
    let mut i: usize = 0;
    while i < n
        invariant
            i <= n,
            n == callsign@.len(),
            forall|j: int| 0 <= j < i ==> is_space(#[trigger] callsign@[j]),
        decreases n - i,
    {
        if !char_is_space(callsign.get_char(i)) {
            return Ok(());
        }
        i = i + 1;
    }
    Err(AppError::Validation { message: String::from_str("callsign is required") })
}

/// A participant may only look at its own participations: the requested
/// callsign must match the caller's, compared in upper case.
pub fn check_same_callsign(caller: &str, requested: &str) -> (r: Result<(), AppError>)
    ensures
        r is Ok <==> upper_of(caller@) == upper_of(requested@),
        r is Err ==> r matches Err(AppError::Forbidden),
{
    let a = to_upper(caller);
    let b = to_upper(requested);
    if a == b {
        Ok(())
    } else {
        Err(AppError::Forbidden)
    }
}

/// The positions, in order, of the entries of `to` that are (`incoming`) or
/// are not (otherwise) addressed to `user`.
pub open spec fn positions(to: Seq<u128>, user: u128, incoming: bool) -> Seq<int>
    decreases to.len(),
{
    if to.len() == 0 {
        Seq::empty()
    } else if (to.last() == user) == incoming {
        positions(to.drop_last(), user, incoming).push(to.len() - 1)
    } else {
        positions(to.drop_last(), user, incoming)
    }
}

/// Splits pending friend requests, given by their addressees `to`, into
/// those addressed to `user` (incoming) and those sent by them (outgoing),
/// as positions in list order.
pub fn split_pending(to: &Vec<u128>, user: u128) -> (r: (Vec<usize>, Vec<usize>))
    ensures
        r.0@.map_values(|i: usize| i as int) == positions(to@, user, true),
        r.1@.map_values(|i: usize| i as int) == positions(to@, user, false),
{
    let mut incoming: Vec<usize> = Vec::new();
    let mut outgoing: Vec<usize> = Vec::new();
    let mut i: usize = 0;
    while i < to.len()
        invariant
            i <= to@.len(),
            incoming@.map_values(|k: usize| k as int) == positions(to@.take(i as int), user, true),
            outgoing@.map_values(|k: usize| k as int) == positions(to@.take(i as int), user, false),
        decreases to@.len() - i,
    {
        assert(to@.take(i + 1).drop_last() =~= to@.take(i as int));
        let ghost before_in = incoming@;
        let ghost before_out = outgoing@;
        if to[i] == user {
            incoming.push(i);
            assert(incoming@.map_values(|k: usize| k as int) =~= before_in.map_values(|k: usize| k as int).push(i as int));
        } else {
            outgoing.push(i);
            assert(outgoing@.map_values(|k: usize| k as int) =~= before_out.map_values(|k: usize| k as int).push(i as int));
        }
        i = i + 1;
    }
    assert(to@.take(i as int) =~= to@);
    (incoming, outgoing)
}

} // verus!
