//! Application settings from environment values, validated at start-up:
//! a missing or malformed critical value stops the program.

use vstd::prelude::*;
use crate::text::{join2, owned, to_chars};
use vstd::string::*;

verus! {

/// Settings of the running service.
#[derive(Debug, Clone)]
pub struct Config {
    pub database_url: String,
    pub host: String,
    pub port: u16,
    pub cors_origin: Option<String>,
    pub cookie_secure: bool,
    pub session_ttl_hours: i64,
    pub seed_workspace_name: String,
    pub seed_admin_email: String,
    pub seed_admin_password: String,
}

/// Why the settings were refused.
#[derive(Debug)]
pub enum ConfigError {
    Missing(&'static str),
    Invalid { key: &'static str, reason: String },
}

impl ConfigError {
    pub open spec fn spec_message(&self) -> Seq<char> {
        match self {
            ConfigError::Missing(k) => "Eksik zorunlu env değişkeni: "@ + k@,
            ConfigError::Invalid { key, reason } => "Geçersiz env değeri "@ + key@ + ": "@ + reason@,
        }
    }

    /// Description of the refusal.
    pub fn message(&self) -> (r: String)
        ensures
            r@ == self.spec_message(),
    {
        match self {
            ConfigError::Missing(k) => join2("Eksik zorunlu env değişkeni: ", k),
            ConfigError::Invalid { key, reason } => {
                let mut r = join2("Geçersiz env değeri ", key);
                r.append(": ");
                r.append(reason.as_str());
                r
            },
        }
    }
}

pub open spec fn digits_number(s: Seq<char>) -> int
    decreases s.len(),
{
    if s.len() == 0 {
        0
    } else {
        digits_number(s.drop_last()) * 10 + (s.last() as int - '0' as int)
    }
}

pub open spec fn all_digits(s: Seq<char>) -> bool {
    forall|i: int| 0 <= i < s.len() ==> '0' <= #[trigger] s[i] <= '9'
}

/// The digits of a port text: after an optional leading `+`.
pub open spec fn unsigned_body(s: Seq<char>) -> Seq<char> {
    if s.len() > 0 && s[0] == '+' {
        s.drop_first()
    } else {
        s
    }
}

/// std `u16::from_str`: an optional `+` followed by at least one ASCII
/// digit, with a value that fits 16 bits.
pub open spec fn spec_parse_u16(s: Seq<char>) -> Option<u16> {
    let b = unsigned_body(s);
    if b.len() > 0 && all_digits(b) && digits_number(b) <= 65535 {
        Some(digits_number(b) as u16)
    } else {
        None
    }
}

proof fn lemma_digits_number_nonneg(s: Seq<char>)
    requires
        all_digits(s),
    ensures
        digits_number(s) >= 0,
    decreases s.len(),
{
    if s.len() > 0 {
        assert(all_digits(s.drop_last())) by {
            assert forall|i: int| 0 <= i < s.drop_last().len() implies '0' <= #[trigger] s.drop_last()[i] <= '9' by {
                assert(s.drop_last()[i] == s[i]);
            }
        }
        lemma_digits_number_nonneg(s.drop_last());
        assert('0' <= s[s.len() - 1] <= '9');
    }
}

proof fn lemma_digits_number_grows(s: Seq<char>, i: int)
    requires
        all_digits(s),
        0 <= i <= s.len(),
    ensures
        digits_number(s.subrange(0, i)) <= digits_number(s),
    decreases s.len() - i,
{
    if i < s.len() {
        lemma_digits_number_grows(s, i + 1);
        let p = s.subrange(0, i + 1);
        assert(p.drop_last() =~= s.subrange(0, i));
        assert(all_digits(s.subrange(0, i))) by {
            assert forall|j: int| 0 <= j < s.subrange(0, i).len() implies '0' <= #[trigger] s.subrange(0, i)[j] <= '9' by {
                assert(s.subrange(0, i)[j] == s[j]);
            }
        }
        lemma_digits_number_nonneg(s.subrange(0, i));
        assert(p.last() == s[i]);
        assert('0' <= s[i] <= '9');
        assert(digits_number(s.subrange(0, i)) * 10 >= digits_number(s.subrange(0, i))) by (nonlinear_arith)
            requires digits_number(s.subrange(0, i)) >= 0;
    } else {
        assert(s.subrange(0, i) =~= s);
    }
}

/// Parses a port number as std `u16::from_str` does.
pub fn parse_u16(s: &str) -> (r: Option<u16>)
    ensures
        r == spec_parse_u16(s@),
{
    let v = to_chars(s);
    let n = v.len();
    let start: usize = if n > 0 && v[0] == '+' { 1 } else { 0 };
    let ghost body = unsigned_body(s@);
    assert(body =~= s@.subrange(start as int, n as int));
    if start >= n {
        return None;
    }
    let mut value: u32 = 0;
    let mut i: usize = start;
    while i < n
        invariant
            start <= i <= n,
            n == v@.len(),
            v@ == s@,
            body =~= s@.subrange(start as int, n as int),
            body == unsigned_body(s@),
            forall|j: int| start <= j < i ==> '0' <= #[trigger] s@[j] <= '9',
            value == digits_number(s@.subrange(start as int, i as int)),
            value <= 65535,
        decreases n - i,
    {
        let c = v[i];
        let ghost pre = s@.subrange(start as int, i + 1);
        assert(pre.drop_last() =~= s@.subrange(start as int, i as int));
        assert(pre.last() == c);
        if c < '0' || c > '9' {
            proof {
                let k = i - start;
                assert(body[k] == c);
                assert(!('0' <= body[k] <= '9'));
                assert(!all_digits(body));
            }
            return None;
        }
        let d = (c as u32) - ('0' as u32);
        let next = value * 10 + d;
        assert(next == digits_number(pre));
        if next > 65535 {
            proof {
                if all_digits(body) {
                    lemma_digits_number_grows(body, i + 1 - start);
                    assert(body.subrange(0, i + 1 - start) =~= pre);
                }
            }
            return None;
        }
        value = next;
        i = i + 1;
    }
    assert(s@.subrange(start as int, n as int) =~= body);
    Some(value as u16)
}

/// std `eq_ignore_ascii_case(.., "true")`: the four letters of "true" in
/// any case.
pub open spec fn is_true_text(s: Seq<char>) -> bool {
    &&& s.len() == 4
    &&& (s[0] == 't' || s[0] == 'T')
    &&& (s[1] == 'r' || s[1] == 'R')
    &&& (s[2] == 'u' || s[2] == 'U')
    &&& (s[3] == 'e' || s[3] == 'E')
}

fn text_is_true(s: &str) -> (r: bool)
    ensures
        r == is_true_text(s@),
{
    let v = to_chars(s);
    if v.len() != 4 {
        return false;
    }
    (v[0] == 't' || v[0] == 'T') && (v[1] == 'r' || v[1] == 'R') && (v[2] == 'u' || v[2] == 'U') && (
    v[3] == 'e' || v[3] == 'E')
}

/// The value given, or `default` when the variable is unset.
pub open spec fn or_default(v: Option<String>, default: Seq<char>) -> Seq<char> {
    match v {
        Some(x) => x@,
        None => default,
    }
}

fn value_or(v: Option<String>, default: &str) -> (r: String)
    ensures
        r@ == or_default(v, default@),
{
    match v {
        Some(x) => x,
        None => owned(default),
    }
}

impl Config {
    /// Settings from the values of the environment variables (`None` for an
    /// unset one): `DATABASE_URL` is required and non-empty; `PORT` must be a
    /// 16-bit number (default 8080); the other values fall back to their
    /// defaults; sessions last one week.
    pub fn from_values(
        database_url: Option<String>,
        host: Option<String>,
        port: Option<String>,
        cors_origin: Option<String>,
        cookie_secure: Option<String>,
        seed_workspace_name: Option<String>,
        seed_admin_email: Option<String>,
        seed_admin_password: Option<String>,
    ) -> (r: Result<Config, ConfigError>)
        ensures
            match database_url {
                None => r matches Err(ConfigError::Missing(k)) && k@ == "DATABASE_URL"@,
                Some(u) => if u@.len() == 0 {
                    r matches Err(ConfigError::Invalid { key, reason }) && key@ == "DATABASE_URL"@
                        && reason@ == "boş olamaz"@
                } else if spec_parse_u16(or_default(port, "8080"@)) is None {
                    r matches Err(ConfigError::Invalid { key, reason }) && key@ == "PORT"@ && reason@
                        == "16-bit sayı olmalı"@
                } else {
                    r matches Ok(c) && c.database_url@ == u@ && c.host@ == or_default(host, "127.0.0.1"@)
                        && Some(c.port) == spec_parse_u16(or_default(port, "8080"@)) && c.cors_origin
                        == cors_origin && c.cookie_secure == (cookie_secure matches Some(v)
                        && is_true_text(v@)) && c.session_ttl_hours == 168 && c.seed_workspace_name@
                        == or_default(seed_workspace_name, "Canlı Atölye"@) && c.seed_admin_email@
                        == or_default(seed_admin_email, "admin@canliatolye.local"@)
                        && c.seed_admin_password@ == or_default(seed_admin_password, "admin123"@)
                },
            },
    {
        let database_url = match database_url {
            Some(u) => u,
            None => {
                return Err(ConfigError::Missing("DATABASE_URL"));
            },
        };
        if database_url.as_str().unicode_len() == 0 {
            return Err(ConfigError::Invalid { key: "DATABASE_URL", reason: owned("boş olamaz") });
        }
        let host = value_or(host, "127.0.0.1");
        let port_text = value_or(port, "8080");
        let port = match parse_u16(port_text.as_str()) {
            Some(p) => p,
            None => {
                return Err(ConfigError::Invalid { key: "PORT", reason: owned("16-bit sayı olmalı") });
            },
        };
        let cookie_secure = match &cookie_secure {
            Some(v) => text_is_true(v.as_str()),
            None => false,
        };
        Ok(Config {
            database_url,
            host,
            port,
            cors_origin,
            cookie_secure,
            session_ttl_hours: 24 * 7,
            seed_workspace_name: value_or(seed_workspace_name, "Canlı Atölye"),
            seed_admin_email: value_or(seed_admin_email, "admin@canliatolye.local"),
            seed_admin_password: value_or(seed_admin_password, "admin123"),
        })
    }
}

} // verus!
