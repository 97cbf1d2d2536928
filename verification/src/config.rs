//! Settings read from the process environment.
use vstd::prelude::*;

use crate::error::Error;
use crate::text::{chars_of, decimal, lookup_value, pair_views, push_decimal, push_str, string_push, value_of};

verus! {

broadcast use vstd::string::group_string_axioms;

/// `s` is made of ASCII decimal digits only.
pub open spec fn all_digits(s: Seq<char>) -> bool {
    forall|i: int| 0 <= i < s.len() ==> '0' <= #[trigger] s[i] <= '9'
}

/// The number that the decimal digits `s` denote.
pub open spec fn digits_value(s: Seq<char>) -> nat
    decreases s.len(),
{
    if s.len() == 0 {
        0
    } else {
        digits_value(s.drop_last()) * 10 + (s.last() as nat - 48) as nat
    }
}

/// What `u16::from_str` accepts: an optional `+`, then one or more decimal digits whose
/// value is at most 65535.
pub open spec fn port_number(s: Seq<char>) -> Option<u16> {
    let d = if s.len() > 0 && s[0] == '+' {
        s.drop_first()
    } else {
        s
    };
    if d.len() > 0 && all_digits(d) && digits_value(d) <= 65535 {
        Some(digits_value(d) as u16)
    } else {
        None
    }
}

/// The value of `name`, or `default` when it is not set.
pub open spec fn value_or(vars: Seq<(Seq<char>, Seq<char>)>, name: Seq<char>, default: Seq<char>) -> Seq<
    char,
> {
    match value_of(vars, name) {
        Some(v) => v,
        None => default,
    }
}

/// Parses a port number as `u16::from_str` does.
pub fn parse_port(s: &str) -> (r: Option<u16>)
    ensures
        r == port_number(s@),
{
    let c = chars_of(s);
    let start: usize = if c.len() > 0 && c[0] == '+' {
        1
    } else {
        0
    };
    let ghost d = if s@.len() > 0 && s@[0] == '+' {
        s@.drop_first()
    } else {
        s@
    };
    assert(d =~= c@.skip(start as int));
    if start >= c.len() {
        return None;
    }
    let mut value: u32 = 0;
    let mut i: usize = start;
    while i < c.len()
        invariant
            start <= i <= c@.len(),
            d =~= c@.skip(start as int),
            d == (if s@.len() > 0 && s@[0] == '+' {
                s@.drop_first()
            } else {
                s@
            }),
            all_digits(d.take(i - start)),
            value == digits_value(d.take(i - start)),
            value <= 65535,
        decreases c.len() - i,
    {
        let ch = c[i];
        assert(d.take(i - start + 1).drop_last() =~= d.take(i - start));
        if ch < '0' || ch > '9' {
            assert(!all_digits(d)) by {
                assert(d[i - start] == ch);
            }
            return None;
        }
        let digit = (ch as u32) - 48;
        let next = value * 10 + digit;
        if next > 65535 {
            proof {
                if all_digits(d) {
                    lemma_digits_value_grows(d, i - start + 1);
                }
            }
            return None;
        }
        value = next;
        i = i + 1;
    }
    assert(d.take(i - start) =~= d);
    Some(value as u16)
}

/// The value of a prefix of digits never exceeds the value of a longer one.
proof fn lemma_digits_value_grows(d: Seq<char>, k: int)
    requires
        0 <= k <= d.len(),
        all_digits(d),
    ensures
        digits_value(d.take(k)) <= digits_value(d),
    decreases d.len() - k,
{
    if k < d.len() {
        lemma_digits_value_grows(d, k + 1);
        assert(d.take(k + 1).drop_last() =~= d.take(k));
    } else {
        assert(d.take(k) =~= d);
    }
}

/// The settings of the service.
#[derive(Debug, Clone)]
pub struct AppConfig {
    pub database_url: String,
    pub restate_admin_url: String,
    pub restate_ingress_url: String,
    pub server_host: String,
    pub server_port: u16,
    pub restate_port: u16,
    pub ai_provider: String,
    pub anthropic_api_key: Option<String>,
    pub openai_api_key: Option<String>,
    pub youtube_api_key: Option<String>,
    pub rust_log: String,
}

/// `host:port`.
pub open spec fn address(host: Seq<char>, port: u16) -> Seq<char> {
    host + seq![':'] + decimal(port as nat)
}

/// The view of an optional text.
pub open spec fn opt_view(o: Option<String>) -> Option<Seq<char>> {
    match o {
        Some(s) => Some(s@),
        None => None,
    }
}

impl AppConfig {
    /// The settings named by the environment `vars`: `DATABASE_URL` must be set, and the
    /// ports, where set, must be valid port numbers; every other setting has a default.
    pub fn from_vars(vars: &Vec<(String, String)>) -> (r: Result<AppConfig, Error>)
        ensures
            ({
                let vv = pair_views(vars@);
                match r {
                    Ok(c) => {
                        &&& value_of(vv, "DATABASE_URL"@) == Some(c.database_url@)
                        &&& c.restate_admin_url@ == value_or(vv, "RESTATE_ADMIN_URL"@, "http://localhost:9070"@)
                        &&& c.restate_ingress_url@ == value_or(vv, "RESTATE_INGRESS_URL"@, "http://localhost:8080"@)
                        &&& c.server_host@ == value_or(vv, "SERVER_HOST"@, "127.0.0.1"@)
                        &&& port_number(value_or(vv, "SERVER_PORT"@, "3000"@)) == Some(c.server_port)
                        &&& port_number(value_or(vv, "RESTATE_PORT"@, "9080"@)) == Some(c.restate_port)
                        &&& c.ai_provider@ == value_or(vv, "AI_PROVIDER"@, "anthropic"@)
                        &&& opt_view(c.anthropic_api_key) == value_of(vv, "ANTHROPIC_API_KEY"@)
                        &&& opt_view(c.openai_api_key) == value_of(vv, "OPENAI_API_KEY"@)
                        &&& opt_view(c.youtube_api_key) == value_of(vv, "YOUTUBE_API_KEY"@)
                        &&& c.rust_log@ == value_or(vv, "RUST_LOG"@, "info"@)
                    },
                    Err(e) => e matches Error::Internal(m) && m@ == (
                        if value_of(vv, "DATABASE_URL"@) is None {
                            "DATABASE_URL must be set"@
                        } else if port_number(value_or(vv, "SERVER_PORT"@, "3000"@)) is None {
                            "SERVER_PORT must be a valid port number"@
                        } else {
                            "RESTATE_PORT must be a valid port number"@
                        }
                    ) && (value_of(vv, "DATABASE_URL"@) is None
                        || port_number(value_or(vv, "SERVER_PORT"@, "3000"@)) is None
                        || port_number(value_or(vv, "RESTATE_PORT"@, "9080"@)) is None),
                }
            }),
    {
        let database_url = match lookup_value(vars, "DATABASE_URL") {
            Some(v) => v,
            None => return Err(Error::Internal(String::from_str("DATABASE_URL must be set"))),
        };
        let restate_admin_url = var_or(vars, "RESTATE_ADMIN_URL", "http://localhost:9070");
        let restate_ingress_url = var_or(vars, "RESTATE_INGRESS_URL", "http://localhost:8080");
        let server_host = var_or(vars, "SERVER_HOST", "127.0.0.1");
        let server_port_text = var_or(vars, "SERVER_PORT", "3000");
        let server_port = match parse_port(server_port_text.as_str()) {
            Some(p) => p,
            None => return Err(
                Error::Internal(String::from_str("SERVER_PORT must be a valid port number")),
            ),
        };
        let restate_port_text = var_or(vars, "RESTATE_PORT", "9080");
        let restate_port = match parse_port(restate_port_text.as_str()) {
            Some(p) => p,
            None => return Err(
                Error::Internal(String::from_str("RESTATE_PORT must be a valid port number")),
            ),
        };
        Ok(AppConfig {
            database_url,
            restate_admin_url,
            restate_ingress_url,
            server_host,
            server_port,
            restate_port,
            ai_provider: var_or(vars, "AI_PROVIDER", "anthropic"),
            anthropic_api_key: lookup_value(vars, "ANTHROPIC_API_KEY"),
            openai_api_key: lookup_value(vars, "OPENAI_API_KEY"),
            youtube_api_key: lookup_value(vars, "YOUTUBE_API_KEY"),
            rust_log: var_or(vars, "RUST_LOG", "info"),
        })
    }

    /// The address the web server listens on: `host:port`.
    pub fn server_addr(&self) -> (r: String)
        ensures
            r@ == address(self.server_host@, self.server_port),
    {
        let mut r = String::new();
        push_str(&mut r, self.server_host.as_str());
        string_push(&mut r, ':');
        push_decimal(&mut r, self.server_port as u64);
        r
    }

    /// The address the workflow endpoint listens on: the server host and the workflow port.
    pub fn restate_addr(&self) -> (r: String)
        ensures
            r@ == address(self.server_host@, self.restate_port),
    {
        let mut r = String::new();
        push_str(&mut r, self.server_host.as_str());
        string_push(&mut r, ':');
        push_decimal(&mut r, self.restate_port as u64);
        r
    }
}

/// The value of `name`, or `default`.
fn var_or(vars: &Vec<(String, String)>, name: &str, default: &str) -> (r: String)
    ensures
        r@ == value_or(pair_views(vars@), name@, default@),
{
    match lookup_value(vars, name) {
        Some(v) => v,
        None => String::from_str(default),
    }
}

} // verus!
