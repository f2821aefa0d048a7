use rand::Rng;
use vstd::prelude::*;
use vstd::string::*;

verus! {

/// Number of random characters after the device-token prefix.
pub const TOKEN_LENGTH: usize = 32;

/// Number of random characters after an invite-token prefix.
pub const INVITE_TOKEN_LENGTH: usize = 24;

/// Whether `c` is an ASCII letter or digit.
pub open spec fn is_alnum(c: char) -> bool {
    ('a' <= c && c <= 'z') || ('A' <= c && c <= 'Z') || ('0' <= c && c <= '9')
}

/// Whether `c` is an ASCII lower-case letter or digit.
pub open spec fn is_lower_alnum(c: char) -> bool {
    ('a' <= c && c <= 'z') || ('0' <= c && c <= '9')
}

/// A well-formed device token: `fd_` followed by exactly 32 ASCII letters or digits.
pub open spec fn valid_token(s: Seq<char>) -> bool {
    &&& s.len() == 3 + TOKEN_LENGTH
    &&& s[0] == 'f' && s[1] == 'd' && s[2] == '_'
    &&& forall|i: int| 3 <= i < s.len() ==> is_alnum(#[trigger] s[i])
}

/// `inv_` followed by 24 characters that each satisfy `ok`.
pub open spec fn invite_shaped(s: Seq<char>, lower_only: bool) -> bool {
    &&& s.len() == 4 + INVITE_TOKEN_LENGTH
    &&& s[0] == 'i' && s[1] == 'n' && s[2] == 'v' && s[3] == '_'
    &&& forall|i: int|
        4 <= i < s.len() ==> if lower_only {
            is_lower_alnum(#[trigger] s[i])
        } else {
            is_alnum(s[i])
        }
}

/// The character at position `i` of `a..z A..Z 0..9`.
pub open spec fn alnum_at(i: int) -> char {
    if i < 26 {
        ((97 + i) as u8) as char
    } else if i < 52 {
        ((65 + (i - 26)) as u8) as char
    } else {
        ((48 + (i - 52)) as u8) as char
    }
}

/// The character at position `i` of `0..9 a..z`.
pub open spec fn lower_alnum_at(i: int) -> char {
    if i < 10 {
        ((48 + i) as u8) as char
    } else {
        ((97 + (i - 10)) as u8) as char
    }
}

/// The character at position `i` of the alphabet tokens are drawn from:
/// `0..9 a..z` if `lower_only`, else `a..z A..Z 0..9`.
pub open spec fn token_char(lower_only: bool, i: int) -> char {
    if lower_only {
        lower_alnum_at(i)
    } else {
        alnum_at(i)
    }
}

/// The size of that alphabet.
pub open spec fn alphabet_len(lower_only: bool) -> int {
    if lower_only {
        36
    } else {
        62
    }
}

/// `n` draws, each a position in the alphabet.
pub open spec fn valid_draws(draws: Seq<int>, n: int, lower_only: bool) -> bool {
    &&& draws.len() == n
    &&& forall|i: int| 0 <= i < n ==> 0 <= #[trigger] draws[i] < alphabet_len(lower_only)
}

/// The characters that `draws` pick from the alphabet.
pub open spec fn drawn(draws: Seq<int>, lower_only: bool) -> Seq<char> {
    draws.map_values(|d: int| token_char(lower_only, d))
}

/// Relies on `rand::Rng::gen_range` over `rand::thread_rng`: a number drawn
/// from `0..bound`, which rand documents to panic only on an empty range.
#[verifier::external_body]
fn random_below(bound: usize) -> (r: usize)
    requires
        bound > 0,
    ensures
        r < bound,
{
    rand::thread_rng().gen_range(0..bound)
}

/// Relies on `String::push`: appends one character.
#[verifier::external_body]
fn push_char(s: &mut String, c: char)
    ensures
        final(s)@ == old(s)@.push(c),
{
    s.push(c)
}

/// The character of `idx` in `a..z A..Z 0..9`.
fn alnum_char(idx: usize) -> (c: char)
    requires
        idx < 62,
    ensures
        is_alnum(c),
        c == alnum_at(idx as int),
{
    if idx < 26 {
        let c = (97u8 + idx as u8) as char;
        c
    } else if idx < 52 {
        let c = (65u8 + (idx - 26) as u8) as char;
        c
    } else {
        let c = (48u8 + (idx - 52) as u8) as char;
        c
    }
}

/// The character of `idx` in `0..9 a..z`.
fn lower_alnum_char(idx: usize) -> (c: char)
    requires
        idx < 36,
    ensures
        is_lower_alnum(c),
        c == lower_alnum_at(idx as int),
{
    if idx < 10 {
        (48u8 + idx as u8) as char
    } else {
        (97u8 + (idx - 10) as u8) as char
    }
}

fn char_is_alnum(c: char) -> (r: bool)
    ensures
        r == is_alnum(c),
{
    ('a' <= c && c <= 'z') || ('A' <= c && c <= 'Z') || ('0' <= c && c <= '9')
}

/// Appends `n` random characters; each from `0..9 a..z` if `lower_only`,
/// else from `a..z A..Z 0..9`.
fn push_random(s: &mut String, n: usize, lower_only: bool)
    ensures
        final(s)@.len() == old(s)@.len() + n,
        final(s)@.subrange(0, old(s)@.len() as int) == old(s)@,
        forall|i: int|
            old(s)@.len() <= i < final(s)@.len() ==> if lower_only {
                is_lower_alnum(#[trigger] final(s)@[i])
            } else {
                is_alnum(final(s)@[i])
            },
        exists|d: Seq<int>|
            #[trigger] valid_draws(d, n as int, lower_only) && final(s)@ == old(s)@ + drawn(d, lower_only),
{
    let ghost start = s@;
    let ghost mut draws: Seq<int> = Seq::empty();
    let mut k: usize = 0;
    while k < n
        invariant
            k <= n,
            s@.len() == start.len() + k,
            s@.subrange(0, start.len() as int) == start,
            forall|i: int|
                start.len() <= i < s@.len() ==> if lower_only {
                    is_lower_alnum(#[trigger] s@[i])
                } else {
                    is_alnum(s@[i])
                },
            valid_draws(draws, k as int, lower_only),
            s@ == start + drawn(draws, lower_only),
        decreases n - k,
    {
        let d = if lower_only {
            random_below(36)
        } else {
            random_below(62)
        };
        let c = if lower_only {
            lower_alnum_char(d)
        } else {
            alnum_char(d)
        };
        let ghost before = s@;
        push_char(s, c);
        assert(s@.subrange(0, start.len() as int) =~= before.subrange(0, start.len() as int));
        proof {
            let d2 = draws.push(d as int);
            assert(drawn(d2, lower_only) =~= drawn(draws, lower_only).push(c));
            assert(s@ =~= start + drawn(d2, lower_only));
            draws = d2;
        }
        k = k + 1;
    }
    assert(valid_draws(draws, n as int, lower_only));
}

/// A new random device token: `fd_` and 32 random ASCII letters or digits.
pub fn generate_device_token() -> (r: String)
    ensures
        valid_token(r@),
        exists|d: Seq<int>|
            #[trigger] valid_draws(d, TOKEN_LENGTH as int, false) && r@ == seq!['f', 'd', '_'] + drawn(d, false),
{
    let mut s = String::new();
    push_char(&mut s, 'f');
    push_char(&mut s, 'd');
    push_char(&mut s, '_');
    assert(s@ =~= seq!['f', 'd', '_']);
    push_random(&mut s, TOKEN_LENGTH, false);
    assert(s@[0] == s@.subrange(0, 3)[0] && s@[1] == s@.subrange(0, 3)[1] && s@[2] == s@.subrange(0, 3)[2]);
    s
}

/// A new random challenge invite token: `inv_` and 24 random characters of
/// `0..9 a..z`.
pub fn generate_invite_token() -> (r: String)
    ensures
        invite_shaped(r@, true),
        exists|d: Seq<int>|
            #[trigger] valid_draws(d, INVITE_TOKEN_LENGTH as int, true) && r@ == seq!['i', 'n', 'v', '_'] + drawn(d, true),
{
    let mut s = String::new();
    push_char(&mut s, 'i');
    push_char(&mut s, 'n');
    push_char(&mut s, 'v');
    push_char(&mut s, '_');
    assert(s@ =~= seq!['i', 'n', 'v', '_']);
    push_random(&mut s, INVITE_TOKEN_LENGTH, true);
    assert(s@[0] == s@.subrange(0, 4)[0] && s@[1] == s@.subrange(0, 4)[1]);
    assert(s@[2] == s@.subrange(0, 4)[2] && s@[3] == s@.subrange(0, 4)[3]);
    s
}

/// A new random friend invite token: `inv_` and 24 random ASCII letters or
/// digits.
pub fn generate_friend_invite_token() -> (r: String)
    ensures
        invite_shaped(r@, false),
        exists|d: Seq<int>|
            #[trigger] valid_draws(d, INVITE_TOKEN_LENGTH as int, false) && r@ == seq!['i', 'n', 'v', '_'] + drawn(d, false),
{
    let mut s = String::new();
    push_char(&mut s, 'i');
    push_char(&mut s, 'n');
    push_char(&mut s, 'v');
    push_char(&mut s, '_');
    assert(s@ =~= seq!['i', 'n', 'v', '_']);
    push_random(&mut s, INVITE_TOKEN_LENGTH, false);
    assert(s@[0] == s@.subrange(0, 4)[0] && s@[1] == s@.subrange(0, 4)[1]);
    assert(s@[2] == s@.subrange(0, 4)[2] && s@[3] == s@.subrange(0, 4)[3]);
    s
}

/// Checks the shape of a device token without looking it up.
pub fn is_valid_token_format(token: &str) -> (r: bool)
    ensures
        r == valid_token(token@),
{
    let n = token.unicode_len();
    if n != 3 + TOKEN_LENGTH {
        return false;
    }
    if token.get_char(0) != 'f' || token.get_char(1) != 'd' || token.get_char(2) != '_' {
        return false;
    }
    let mut i: usize = 3;
    while i < n
        invariant
            3 <= i <= n,
            n == token@.len(),
            n == 3 + TOKEN_LENGTH,
            token@[0] == 'f' && token@[1] == 'd' && token@[2] == '_',
            forall|j: int| 3 <= j < i ==> is_alnum(#[trigger] token@[j]),
        decreases n - i,
    {
        if !char_is_alnum(token.get_char(i)) {
            return false;
        }
        i = i + 1;
    }
    true
}

} // verus!
