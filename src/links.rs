use vstd::prelude::*;
use vstd::string::*;

verus! {

/// `16^e`.
pub open spec fn pow16(e: nat) -> nat
    decreases e,
{
    if e == 0 {
        1
    } else {
        16 * pow16((e - 1) as nat)
    }
}

/// The lower-case hex digit of `v`, for `0 <= v < 16`.
pub open spec fn hex_digit(v: int) -> char {
    if v < 10 {
        ((48 + v) as u8) as char
    } else {
        ((87 + v) as u8) as char
    }
}

/// The `k`-th hex digit, counted from the most significant, of a 128-bit value.
pub open spec fn nibble(id: u128, k: int) -> int {
    (id as int / pow16((31 - k) as nat) as int) % 16
}

/// Which of the 32 hex digits stands at position `p` of the hyphenated text.
pub open spec fn digit_index(p: int) -> int {
    if p < 8 {
        p
    } else if p < 13 {
        p - 1
    } else if p < 18 {
        p - 2
    } else if p < 23 {
        p - 3
    } else {
        p - 4
    }
}

/// The hyphenated text of an identifier: its 32 lower-case hex digits, most
/// significant first, with a hyphen after the 8th, 12th, 16th and 20th.
pub open spec fn uuid_text(id: u128) -> Seq<char> {
    Seq::new(
        36,
        |p: int|
            if p == 8 || p == 13 || p == 18 || p == 23 {
                '-'
            } else {
                hex_digit(nibble(id, digit_index(p)))
            },
    )
}

/// Relies on `uuid::Uuid::from_u128` (the value's bytes, most significant
/// first) and the `Display` of `uuid::Uuid` (its lower-case hyphenated form).
#[verifier::external_body]
fn uuid_string(id: u128) -> (r: String)
    ensures
        r@ == uuid_text(id),
{
    uuid::Uuid::from_u128(id).to_string()
}

/// `<base_url>/join/<token>`: the link that shares a challenge invite.
pub fn invite_url(base_url: &str, token: &str) -> (r: String)
    ensures
        r@ == base_url@ + "/join/"@ + token@,
{
    let mut r = String::from_str(base_url);
    r.append("/join/");
    r.append(token);
    r
}

/// `<base_url>/invite/<token>`: the link that shares a friend invite.
pub fn friend_invite_url(base_url: &str, token: &str) -> (r: String)
    ensures
        r@ == base_url@ + "/invite/"@ + token@,
{
    let mut r = String::from_str(base_url);
    r.append("/invite/");
    r.append(token);
    r
}

/// `<base_url>/v1/badges/<id>/image` for the text `id_text` of a badge identifier.
pub fn badge_image_path(base_url: &str, id_text: &str) -> (r: String)
    ensures
        r@ == base_url@ + "/v1/badges/"@ + id_text@ + "/image"@,
{
    let mut r = String::from_str(base_url);
    r.append("/v1/badges/");
    r.append(id_text);
    r.append("/image");
    r
}

/// The link to a badge's image.
pub fn badge_image_url(base_url: &str, badge_id: u128) -> (r: String)
    ensures
        r@ == base_url@ + "/v1/badges/"@ + uuid_text(badge_id) + "/image"@,
{
    let id = uuid_string(badge_id);
    badge_image_path(base_url, id.as_str())
}

} // verus!
