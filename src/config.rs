use vstd::prelude::*;
use vstd::string::*;

verus! {

/// Service settings.
pub struct Config {
    pub database_url: String,
    pub admin_token: String,
    pub port: u16,
    pub base_url: Option<String>,
    pub invite_base_url: String,
    pub invite_expiry_days: i64,
}

/// Why settings could not be read: a required one is missing, or one is malformed.
pub enum ConfigError {
    Missing(&'static str),
    Invalid(&'static str),
}

/// The port used when none is set.
pub const DEFAULT_PORT: u16 = 8080;

/// The lifetime of a friend invite, in days, when none is set.
pub const DEFAULT_INVITE_EXPIRY_DAYS: i64 = 7;

/// A value above every number the settings can hold.
pub const SCAN_CAP: u128 = 0x1_0000_0000_0000_0000;

pub open spec fn is_digit(c: char) -> bool {
    '0' <= c && c <= '9'
}

pub open spec fn all_digits(s: Seq<char>) -> bool {
    forall|i: int| 0 <= i < s.len() ==> is_digit(#[trigger] s[i])
}

/// The number that a string of decimal digits denotes.
pub open spec fn digits_value(s: Seq<char>) -> nat
    decreases s.len(),
{
    if s.len() == 0 {
        0
    } else {
        digits_value(s.drop_last()) * 10 + (s.last() as nat - '0' as nat) as nat
    }
}

/// The value of a decimal numeral with an optional leading `+`, as Rust's
/// unsigned integer parsing reads it before the range check.
pub open spec fn unsigned_numeral(s: Seq<char>) -> Option<nat> {
    let body = if s.len() > 0 && s[0] == '+' {
        s.drop_first()
    } else {
        s
    };
    if body.len() > 0 && all_digits(body) {
        Some(digits_value(body))
    } else {
        None
    }
}

/// The value of a decimal numeral with an optional leading `+` or `-`, as
/// Rust's signed integer parsing reads it before the range check.
pub open spec fn signed_numeral(s: Seq<char>) -> Option<int> {
    if s.len() > 0 && s[0] == '-' {
        let body = s.drop_first();
        if body.len() > 0 && all_digits(body) {
            Some(-(digits_value(body) as int))
        } else {
            None
        }
    } else {
        match unsigned_numeral(s) {
            Some(v) => Some(v as int),
            None => None,
        }
    }
}

/// What `str::parse::<u16>` gives.
pub open spec fn u16_of(s: Seq<char>) -> Option<u16> {
    match unsigned_numeral(s) {
        Some(v) => if v <= u16::MAX {
            Some(v as u16)
        } else {
            None
        },
        None => None,
    }
}

/// What `str::parse::<i64>` gives.
pub open spec fn i64_of(s: Seq<char>) -> Option<i64> {
    match signed_numeral(s) {
        Some(v) => if i64::MIN <= v <= i64::MAX {
            Some(v as i64)
        } else {
            None
        },
        None => None,
    }
}

proof fn lemma_digits_value_push(s: Seq<char>, c: char)
    ensures
        digits_value(s.push(c)) == digits_value(s) * 10 + (c as nat - '0' as nat) as nat,
{
    assert(s.push(c).drop_last() =~= s);
}

/// The value of the digits of `s` from position `start`, capped at
/// `SCAN_CAP`; `None` if there are none or one is not a digit.
fn scan_digits(s: &str, start: usize) -> (r: Option<u128>)
    requires
        start <= s@.len(),
    ensures
        match r {
            Some(v) => {
                &&& s@.skip(start as int).len() > 0
                &&& all_digits(s@.skip(start as int))
                &&& v == if digits_value(s@.skip(start as int)) < SCAN_CAP {
                    digits_value(s@.skip(start as int))
                } else {
                    SCAN_CAP as nat
                }
            },
            None => !(s@.skip(start as int).len() > 0 && all_digits(s@.skip(start as int))),
        },
{
    let n = s.unicode_len();
    if start >= n {
        return None;
    }
    let ghost body = s@.skip(start as int);
    let mut acc: u128 = 0;
    let mut i: usize = start;
    while i < n
        invariant
            start <= i <= n,
            n == s@.len(),
            body == s@.skip(start as int),
            all_digits(body.take(i - start)),
            acc == if digits_value(body.take(i - start)) < SCAN_CAP {
                digits_value(body.take(i - start))
            } else {
                SCAN_CAP as nat
            },
        decreases n - i,
    {
        let c = s.get_char(i);
        if !('0' <= c && c <= '9') {
            assert(!is_digit(body[i - start]));
            return None;
        }
        let ghost prefix = body.take(i - start);
        assert(body.take(i - start + 1) =~= prefix.push(c));
        proof {
            lemma_digits_value_push(prefix, c);
        }
        let d = (c as u32 - '0' as u32) as u128;
        if acc >= SCAN_CAP {
            acc = SCAN_CAP;
        } else {
            let next = acc * 10 + d;
            acc = if next < SCAN_CAP {
                next
            } else {
                SCAN_CAP
            };
        }
        i = i + 1;
    }
    assert(body.take(i - start) =~= body);
    Some(acc)
}

/// Parses a decimal `u16` as `str::parse` does.
pub fn parse_u16(s: &str) -> (r: Option<u16>)
    ensures
        r == u16_of(s@),
{
    let n = s.unicode_len();
    let start: usize = if n > 0 && s.get_char(0) == '+' {
        1
    } else {
        0
    };
    proof {
        if start == 1 {
            assert(s@.skip(1) =~= s@.drop_first());
        } else {
            assert(s@.skip(0) =~= s@);
        }
    }
    match scan_digits(s, start) {
        Some(v) => if v <= 65535 {
            Some(v as u16)
        } else {
            None
        },
        None => None,
    }
}

/// Parses a decimal `i64` as `str::parse` does.
pub fn parse_i64(s: &str) -> (r: Option<i64>)
    ensures
        r == i64_of(s@),
{
    let n = s.unicode_len();
    let negative = n > 0 && s.get_char(0) == '-';
    let start: usize = if n > 0 && (s.get_char(0) == '+' || s.get_char(0) == '-') {
        1
    } else {
        0
    };
    proof {
        if start == 1 {
            assert(s@.skip(1) =~= s@.drop_first());
        } else {
            assert(s@.skip(0) =~= s@);
        }
    }
    match scan_digits(s, start) {
        Some(v) => if negative {
            if v <= 9223372036854775808 {
                Some((0 - v as i128) as i64)
            } else {
                None
            }
        } else if v <= 9223372036854775807 {
            Some(v as i64)
        } else {
            None
        },
        None => None,
    }
}

/// The setting `name`, or `default` when it is not set.
fn or_default(value: Option<String>, default: &str) -> (r: String)
    ensures
        r@ == match value {
            Some(v) => v@,
            None => default@,
        },
{
    match value {
        Some(v) => v,
        None => String::from_str(default),
    }
}

/// A port is set but is not a `u16`.
pub open spec fn port_malformed(port: Option<String>) -> bool {
    match port {
        Some(p) => u16_of(p@) is None,
        None => false,
    }
}

/// An invite lifetime is set but is not an `i64`.
pub open spec fn days_malformed(days: Option<String>) -> bool {
    match days {
        Some(d) => i64_of(d@) is None,
        None => false,
    }
}

impl Config {
    /// Builds the settings from the raw values of `DATABASE_URL`,
    /// `ADMIN_TOKEN`, `PORT`, `BASE_URL`, `INVITE_BASE_URL` and
    /// `INVITE_EXPIRY_DAYS` (`None` where one is not set). The first two are
    /// required; the others have defaults. The first failure in that order is
    /// reported.
    pub fn from_vars(
        database_url: Option<String>,
        admin_token: Option<String>,
        port: Option<String>,
        base_url: Option<String>,
        invite_base_url: Option<String>,
        invite_expiry_days: Option<String>,
    ) -> (r: Result<Config, ConfigError>)
        ensures
            match r {
                Err(ConfigError::Missing(n)) => (database_url is None && n@ == "DATABASE_URL"@) || (
                database_url is Some && admin_token is None && n@ == "ADMIN_TOKEN"@),
                Err(ConfigError::Invalid(n)) => {
                    &&& database_url is Some && admin_token is Some
                    &&& (port_malformed(port) && n@ == "PORT must be a number"@) || (!port_malformed(port)
                        && days_malformed(invite_expiry_days) && n@ == "INVITE_EXPIRY_DAYS must be a number"@)
                },
                Ok(c) => {
                    &&& database_url is Some && admin_token is Some
                    &&& !port_malformed(port) && !days_malformed(invite_expiry_days)
                    &&& c.database_url@ == database_url->0@
                    &&& c.admin_token@ == admin_token->0@
                    &&& c.port == match port {
                        Some(p) => u16_of(p@)->0,
                        None => DEFAULT_PORT,
                    }
                    &&& c.base_url == base_url
                    &&& c.invite_base_url@ == match invite_base_url {
                        Some(u) => u@,
                        None => "https://activities.carrierwave.app"@,
                    }
                    &&& c.invite_expiry_days == match invite_expiry_days {
                        Some(d) => i64_of(d@)->0,
                        None => DEFAULT_INVITE_EXPIRY_DAYS,
                    }
                },
            },
    {
        let database_url = match database_url {
            Some(u) => u,
            None => {
                return Err(ConfigError::Missing("DATABASE_URL"));
            },
        };
        let admin_token = match admin_token {
            Some(t) => t,
            None => {
                return Err(ConfigError::Missing("ADMIN_TOKEN"));
            },
        };
        let port = match port {
            Some(p) => match parse_u16(p.as_str()) {
                Some(n) => n,
                None => {
                    return Err(ConfigError::Invalid("PORT must be a number"));
                },
            },
            None => DEFAULT_PORT,
        };
        let invite_base_url = or_default(invite_base_url, "https://activities.carrierwave.app");
        let invite_expiry_days = match invite_expiry_days {
            Some(d) => match parse_i64(d.as_str()) {
                Some(n) => n,
                None => {
                    return Err(ConfigError::Invalid("INVITE_EXPIRY_DAYS must be a number"));
                },
            },
            None => DEFAULT_INVITE_EXPIRY_DAYS,
        };
        Ok(Config { database_url, admin_token, port, base_url, invite_base_url, invite_expiry_days })
    }
}

} // verus!
