//! Configuration.
//!
//! Every setting has a default except `SESSION_SECRET`, which is required and
//! must be at least 32 bytes for HMAC security. Reading the environment is
//! the caller's part; `Config::from_values` turns the raw values into a
//! configuration.

use vstd::prelude::*;

use crate::utils::chars::{spec_to_lowercase, to_lowercase};

verus! {

/// Why a configuration could not be built.
#[derive(Debug)]
pub enum ConfigError {
    MissingSecret,
    SecretTooShort(usize),
    InvalidValue { key: String, value: String },
}

/// Application configuration.
#[derive(Debug)]
pub struct Config {
    /// HMAC signing key for the session cookie; at least 32 bytes.
    pub session_secret: String,
    /// Cookie `Secure` flag; `false` for local HTTP development.
    pub cookie_secure: bool,
    /// bcrypt cost factor.
    pub bcrypt_cost: u32,
    /// Login failures before lockout.
    pub rate_limit_max_failures: u32,
    /// Lockout duration in minutes.
    pub rate_limit_lockout_minutes: u32,
    /// Requests per IP per minute for register and login.
    pub rate_limit_ip_per_minute: u32,
    /// Short session lifetime in seconds (remember_me = false).
    pub session_ttl_short: u64,
    /// Long session lifetime in seconds (remember_me = true).
    pub session_ttl_long: u64,
    /// Allowed CORS origin.
    pub cors_origin: String,
    /// Server listen address.
    pub listen_addr: String,
}

impl Clone for Config {
    fn clone(&self) -> (r: Self)
        ensures
            r == *self,
    {
        Config {
            session_secret: self.session_secret.clone(),
            cookie_secure: self.cookie_secure,
            bcrypt_cost: self.bcrypt_cost,
            rate_limit_max_failures: self.rate_limit_max_failures,
            rate_limit_lockout_minutes: self.rate_limit_lockout_minutes,
            rate_limit_ip_per_minute: self.rate_limit_ip_per_minute,
            session_ttl_short: self.session_ttl_short,
            session_ttl_long: self.session_ttl_long,
            cors_origin: self.cors_origin.clone(),
            listen_addr: self.listen_addr.clone(),
        }
    }
}

/// The value of a string of decimal digits.
pub open spec fn decimal_value(s: Seq<char>) -> int
    decreases s.len(),
{
    if s.len() == 0 {
        0
    } else {
        decimal_value(s.drop_last()) * 10 + (s.last() as int - 48)
    }
}

/// Whether every character is an ASCII digit.
pub open spec fn all_decimal(s: Seq<char>) -> bool {
    forall|i: int| 0 <= i < s.len() ==> '0' <= #[trigger] s[i] <= '9'
}

/// An unsigned integer's text: an optional `+`, then at least one decimal
/// digit, with a value at most `max`. No sign other than `+` and no
/// whitespace is accepted.
pub open spec fn parse_unsigned(s: Seq<char>, max: int) -> Option<int> {
    let digits = if s.len() > 0 && s[0] == '+' {
        s.subrange(1, s.len() as int)
    } else {
        s
    };
    if digits.len() > 0 && all_decimal(digits) && decimal_value(digits) <= max {
        Some(decimal_value(digits))
    } else {
        None
    }
}

/// What `str::parse::<u32>` returns for `s` (`None` for an error).
pub open spec fn spec_parse_u32(s: Seq<char>) -> Option<u32> {
    match parse_unsigned(s, u32::MAX as int) {
        Some(n) => Some(n as u32),
        None => None,
    }
}

/// What `str::parse::<u64>` returns for `s` (`None` for an error).
pub open spec fn spec_parse_u64(s: Seq<char>) -> Option<u64> {
    match parse_unsigned(s, u64::MAX as int) {
        Some(n) => Some(n as u64),
        None => None,
    }
}

/// Calls `str::parse::<u32>` (`u32`'s `FromStr`: an optional `+` and decimal
/// digits, refused when empty or out of range).
#[verifier::external_body]
fn parse_u32(s: &str) -> (r: Option<u32>)
    ensures
        r == spec_parse_u32(s@),
{
    s.parse::<u32>().ok()
}

/// Calls `str::parse::<u64>` (`u64`'s `FromStr`, as for `u32`).
#[verifier::external_body]
fn parse_u64(s: &str) -> (r: Option<u64>)
    ensures
        r == spec_parse_u64(s@),
{
    s.parse::<u64>().ok()
}

/// `bool`'s `FromStr` accepts exactly `true` and `false`.
pub open spec fn spec_parse_bool(s: Seq<char>) -> Option<bool> {
    if s == "true"@ {
        Some(true)
    } else if s == "false"@ {
        Some(false)
    } else {
        None
    }
}

/// The value of a boolean setting: the default when unset, otherwise the
/// lowercased value parsed as `true` or `false`.
pub open spec fn bool_setting(v: Option<Seq<char>>, default: bool) -> Option<bool> {
    match v {
        None => Some(default),
        Some(s) => spec_parse_bool(spec_to_lowercase(s)),
    }
}

/// The value of a `u32` setting: the default when unset, otherwise the parse.
pub open spec fn u32_setting(v: Option<Seq<char>>, default: u32) -> Option<u32> {
    match v {
        None => Some(default),
        Some(s) => spec_parse_u32(s),
    }
}

/// The value of a `u64` setting: the default when unset, otherwise the parse.
pub open spec fn u64_setting(v: Option<Seq<char>>, default: u64) -> Option<u64> {
    match v {
        None => Some(default),
        Some(s) => spec_parse_u64(s),
    }
}

/// The characters of an optional string.
pub open spec fn opt_view(o: Option<String>) -> Option<Seq<char>> {
    match o {
        Some(s) => Some(s@),
        None => None,
    }
}

/// Whether `s` is exactly `lit`.
fn str_equals(s: &str, lit: &str) -> (r: bool)
    ensures
        r == (s@ == lit@),
{
    let a = crate::utils::chars::chars_of(s);
    let b = crate::utils::chars::chars_of(lit);
    if a.len() != b.len() {
        return false;
    }
    let mut i: usize = 0;
    while i < a.len()
        invariant
            i <= a.len() == b.len(),
            a@ == s@,
            b@ == lit@,
            forall|j: int| 0 <= j < i ==> a@[j] == b@[j],
        decreases a.len() - i,
    {
        if a[i] != b[i] {
            return false;
        }
        i += 1;
    }
    assert(a@ =~= b@);
    true
}

fn invalid(key: &str, value: String) -> (r: ConfigError)
    ensures
        r == (ConfigError::InvalidValue { key: r->key, value }),
        r->key@ == key@,
{
    ConfigError::InvalidValue { key: String::from_str(key), value }
}

/// Parse a boolean setting (lowercased `true` / `false`).
pub fn parse_bool_setting(key: &str, value: Option<String>, default: bool) -> (r: Result<bool, ConfigError>)
    ensures
        match r {
            Ok(b) => bool_setting(opt_view(value), default) == Some(b),
            Err(e) => bool_setting(opt_view(value), default) is None && e == (ConfigError::InvalidValue {
                key: e->key,
                value: value.unwrap(),
            }) && e->key@ == key@,
        },
{
    match value {
        None => Ok(default),
        Some(v) => {
            let lower = to_lowercase(v.as_str());
            if str_equals(lower.as_str(), "true") {
                Ok(true)
            } else if str_equals(lower.as_str(), "false") {
                Ok(false)
            } else {
                Err(invalid(key, v))
            }
        },
    }
}

/// Parse a `u32` setting.
pub fn parse_u32_setting(key: &str, value: Option<String>, default: u32) -> (r: Result<u32, ConfigError>)
    ensures
        match r {
            Ok(n) => u32_setting(opt_view(value), default) == Some(n),
            Err(e) => u32_setting(opt_view(value), default) is None && e == (ConfigError::InvalidValue {
                key: e->key,
                value: value.unwrap(),
            }) && e->key@ == key@,
        },
{
    match value {
        None => Ok(default),
        Some(v) => match parse_u32(v.as_str()) {
            Some(n) => Ok(n),
            None => Err(invalid(key, v)),
        },
    }
}

/// Parse a `u64` setting.
pub fn parse_u64_setting(key: &str, value: Option<String>, default: u64) -> (r: Result<u64, ConfigError>)
    ensures
        match r {
            Ok(n) => u64_setting(opt_view(value), default) == Some(n),
            Err(e) => u64_setting(opt_view(value), default) is None && e == (ConfigError::InvalidValue {
                key: e->key,
                value: value.unwrap(),
            }) && e->key@ == key@,
        },
{
    match value {
        None => Ok(default),
        Some(v) => match parse_u64(v.as_str()) {
            Some(n) => Ok(n),
            None => Err(invalid(key, v)),
        },
    }
}

/// The raw values of the configuration variables, as read from the
/// environment (`None` where a variable is unset).
pub struct ConfigValues {
    pub session_secret: Option<String>,
    pub cookie_secure: Option<String>,
    pub bcrypt_cost: Option<String>,
    pub rate_limit_max_failures: Option<String>,
    pub rate_limit_lockout_minutes: Option<String>,
    pub rate_limit_ip_per_minute: Option<String>,
    pub session_ttl_short: Option<String>,
    pub session_ttl_long: Option<String>,
    pub cors_origin: Option<String>,
    pub listen_addr: Option<String>,
}

/// Whether the secret is set and at least 32 bytes long.
pub open spec fn secret_ok(v: ConfigValues) -> bool {
    &&& v.session_secret is Some
    &&& vstd::utf8::encode_utf8(v.session_secret.unwrap()@).len() >= 32
}

/// The name and value of the first setting that does not parse, in the
/// order `COOKIE_SECURE`, `BCRYPT_COST`, `RATE_LIMIT_MAX_FAILURES`,
/// `RATE_LIMIT_LOCKOUT_MINUTES`, `RATE_LIMIT_IP_PER_MINUTE`,
/// `SESSION_TTL_SHORT`, `SESSION_TTL_LONG`.
pub open spec fn first_invalid(v: ConfigValues) -> Option<(Seq<char>, Seq<char>)> {
    if bool_setting(opt_view(v.cookie_secure), true) is None {
        Some(("COOKIE_SECURE"@, v.cookie_secure.unwrap()@))
    } else if u32_setting(opt_view(v.bcrypt_cost), 12) is None {
        Some(("BCRYPT_COST"@, v.bcrypt_cost.unwrap()@))
    } else if u32_setting(opt_view(v.rate_limit_max_failures), 5) is None {
        Some(("RATE_LIMIT_MAX_FAILURES"@, v.rate_limit_max_failures.unwrap()@))
    } else if u32_setting(opt_view(v.rate_limit_lockout_minutes), 15) is None {
        Some(("RATE_LIMIT_LOCKOUT_MINUTES"@, v.rate_limit_lockout_minutes.unwrap()@))
    } else if u32_setting(opt_view(v.rate_limit_ip_per_minute), 20) is None {
        Some(("RATE_LIMIT_IP_PER_MINUTE"@, v.rate_limit_ip_per_minute.unwrap()@))
    } else if u64_setting(opt_view(v.session_ttl_short), 7200) is None {
        Some(("SESSION_TTL_SHORT"@, v.session_ttl_short.unwrap()@))
    } else if u64_setting(opt_view(v.session_ttl_long), 604_800) is None {
        Some(("SESSION_TTL_LONG"@, v.session_ttl_long.unwrap()@))
    } else {
        None
    }
}

/// Whether the raw values make a configuration: a secret of at least 32
/// bytes and every set value parsable.
pub open spec fn values_ok(v: ConfigValues) -> bool {
    secret_ok(v) && first_invalid(v) is None
}

impl Config {
    /// Build the configuration from raw values, with these defaults:
    /// `COOKIE_SECURE` true, `BCRYPT_COST` 12, `RATE_LIMIT_MAX_FAILURES` 5,
    /// `RATE_LIMIT_LOCKOUT_MINUTES` 15, `RATE_LIMIT_IP_PER_MINUTE` 20,
    /// `SESSION_TTL_SHORT` 7200, `SESSION_TTL_LONG` 604800, `CORS_ORIGIN`
    /// `http://localhost:5173`, `LISTEN_ADDR` `0.0.0.0:3000`. The first
    /// failure in that order is reported.
    pub fn from_values(v: ConfigValues) -> (r: Result<Config, ConfigError>)
        ensures
            r is Ok <==> values_ok(v),
            v.session_secret is None ==> r matches Err(ConfigError::MissingSecret),
            v.session_secret is Some && vstd::utf8::encode_utf8(v.session_secret.unwrap()@).len() < 32
                ==> (r matches Err(ConfigError::SecretTooShort(n)) && n == vstd::utf8::encode_utf8(
                v.session_secret.unwrap()@,
            ).len()),
            secret_ok(v) && first_invalid(v) is Some ==> (r matches Err(
                ConfigError::InvalidValue { key, value },
            ) && first_invalid(v) == Some((key@, value@))),
            r matches Ok(c) ==> {
                &&& c.session_secret == v.session_secret.unwrap()
                &&& bool_setting(opt_view(v.cookie_secure), true) == Some(c.cookie_secure)
                &&& u32_setting(opt_view(v.bcrypt_cost), 12) == Some(c.bcrypt_cost)
                &&& u32_setting(opt_view(v.rate_limit_max_failures), 5) == Some(
                    c.rate_limit_max_failures,
                )
                &&& u32_setting(opt_view(v.rate_limit_lockout_minutes), 15) == Some(
                    c.rate_limit_lockout_minutes,
                )
                &&& u32_setting(opt_view(v.rate_limit_ip_per_minute), 20) == Some(
                    c.rate_limit_ip_per_minute,
                )
                &&& u64_setting(opt_view(v.session_ttl_short), 7200) == Some(c.session_ttl_short)
                &&& u64_setting(opt_view(v.session_ttl_long), 604_800) == Some(c.session_ttl_long)
                &&& c.cors_origin@ == (match v.cors_origin {
                    Some(s) => s@,
                    None => "http://localhost:5173"@,
                })
                &&& c.listen_addr@ == (match v.listen_addr {
                    Some(s) => s@,
                    None => "0.0.0.0:3000"@,
                })
            },
    {
        let session_secret = match v.session_secret {
            Some(s) => s,
            None => return Err(ConfigError::MissingSecret),
        };
        let secret_len = session_secret.as_str().as_bytes().len();
        if secret_len < 32 {
            return Err(ConfigError::SecretTooShort(secret_len));
        }
        let cookie_secure = match parse_bool_setting("COOKIE_SECURE", v.cookie_secure, true) {
            Ok(b) => b,
            Err(e) => return Err(e),
        };
        let bcrypt_cost = match parse_u32_setting("BCRYPT_COST", v.bcrypt_cost, 12) {
            Ok(n) => n,
            Err(e) => return Err(e),
        };
        let rate_limit_max_failures = match parse_u32_setting(
            "RATE_LIMIT_MAX_FAILURES",
            v.rate_limit_max_failures,
            5,
        ) {
            Ok(n) => n,
            Err(e) => return Err(e),
        };
        let rate_limit_lockout_minutes = match parse_u32_setting(
            "RATE_LIMIT_LOCKOUT_MINUTES",
            v.rate_limit_lockout_minutes,
            15,
        ) {
            Ok(n) => n,
            Err(e) => return Err(e),
        };
        let rate_limit_ip_per_minute = match parse_u32_setting(
            "RATE_LIMIT_IP_PER_MINUTE",
            v.rate_limit_ip_per_minute,
            20,
        ) {
            Ok(n) => n,
            Err(e) => return Err(e),
        };
        let session_ttl_short = match parse_u64_setting("SESSION_TTL_SHORT", v.session_ttl_short, 7200) {
            Ok(n) => n,
            Err(e) => return Err(e),
        };
        let session_ttl_long = match parse_u64_setting("SESSION_TTL_LONG", v.session_ttl_long, 604_800) {
            Ok(n) => n,
            Err(e) => return Err(e),
        };
        let cors_origin = match v.cors_origin {
            Some(s) => s,
            None => String::from_str("http://localhost:5173"),
        };
        let listen_addr = match v.listen_addr {
            Some(s) => s,
            None => String::from_str("0.0.0.0:3000"),
        };
        Ok(Config {
            session_secret,
            cookie_secure,
            bcrypt_cost,
            rate_limit_max_failures,
            rate_limit_lockout_minutes,
            rate_limit_ip_per_minute,
            session_ttl_short,
            session_ttl_long,
            cors_origin,
            listen_addr,
        })
    }
}

} // verus!
