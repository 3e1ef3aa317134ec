//! Connection configuration and request building.
//!
//! The binary looks the three connection variables up (environment first,
//! dotfile fallback for the token) and hands the outcomes to `Client::setup`,
//! which resolves them into a validated configuration or a descriptive
//! failure. The configured client then builds every request URL and the JSON
//! body of a service call; the binary only sends them.

use vstd::prelude::*;
use vstd::string::StrSliceExecFns;
use vstd::string::StringExecFns;
use crate::text::{dec_rep, json_quote, json_quote_str, lemma_json_escape_plain, plain_json_char, u64_to_dec};

verus! {

/// The port used when the port variable is not set.
pub const DEFAULT_PORT: u16 = 8123;

/// The outcome of looking one configuration variable up: its value, or the
/// variable is not set, or it is set to something unusable (for an
/// environment variable, a value that is not valid text).
#[derive(Debug, Clone)]
pub enum VarLookup {
    Present(String),
    Absent,
    Invalid,
}

/// Why a configuration could not be resolved.
#[derive(Debug, Clone, Copy, PartialEq, Eq, Structural)]
pub enum ClientError {
    MissingAccessToken,
    InvalidAccessToken,
    MissingHost,
    InvalidHost,
    InvalidPort,
}

/// A resolved connection configuration: everything a request needs.
#[derive(Debug, Clone)]
pub struct Client {
    pub access_token: String,
    pub port: u16,
    pub host: String,
}

/// The remediation message shown for each configuration failure.
pub open spec fn error_description_of(e: ClientError) -> Seq<char> {
    match e {
        ClientError::MissingAccessToken => "Missing access token\n\nTo authenticate requests to Home Assistant, hassctl\nneeds to have an access token.\n\nGo to your profile in the Home Assistant dashboard,\nand select the Security tab. Create a long-lived token,\nand make sure to copy the token.\n\nThen create an environment variable named HASSCTL_ACCESS_TOKEN\nwith the access token as value."@,
        ClientError::InvalidAccessToken => "Invalid access token!"@,
        ClientError::MissingHost => "Missing host.\n\nHost must be specified in the environment variable HASSCTL_HOST.\n"@,
        ClientError::InvalidHost => "Invalid host."@,
        ClientError::InvalidPort => "Invalid port."@,
    }
}

impl ClientError {
    /// The human-readable description of this failure.
    pub fn error_description(&self) -> (r: String)
        ensures
            r@ == error_description_of(*self),
    {
        match self {
            ClientError::MissingAccessToken => String::from_str(
                "Missing access token\n\nTo authenticate requests to Home Assistant, hassctl\nneeds to have an access token.\n\nGo to your profile in the Home Assistant dashboard,\nand select the Security tab. Create a long-lived token,\nand make sure to copy the token.\n\nThen create an environment variable named HASSCTL_ACCESS_TOKEN\nwith the access token as value.",
            ),
            ClientError::InvalidAccessToken => String::from_str("Invalid access token!"),
            ClientError::MissingHost => String::from_str(
                "Missing host.\n\nHost must be specified in the environment variable HASSCTL_HOST.\n",
            ),
            ClientError::InvalidHost => String::from_str("Invalid host."),
            ClientError::InvalidPort => String::from_str("Invalid port."),
        }
    }
}

/// `c` is a decimal digit.
pub open spec fn is_dec_digit(c: char) -> bool {
    48 <= c as u32 && c as u32 <= 57
}

/// The value of the decimal digit `c`.
pub open spec fn digit_val(c: char) -> nat {
    (c as u32 - 48) as nat
}

/// Every character of `s` is a decimal digit.
pub open spec fn all_dec_digits(s: Seq<char>) -> bool {
    forall|i: int| 0 <= i < s.len() ==> is_dec_digit(#[trigger] s[i])
}

/// The numeric value of a digit sequence, most significant digit first.
pub open spec fn dec_val(s: Seq<char>) -> nat
    decreases s.len(),
{
    if s.len() == 0 {
        0
    } else {
        dec_val(s.drop_last()) * 10 + digit_val(s.last())
    }
}

/// What parsing `s` as an unsigned 16-bit integer yields: after an optional
/// leading `+`, at least one digit and nothing else, with a value of at most
/// 65535; anything else fails.
pub open spec fn parse_u16_spec(s: Seq<char>) -> Option<u16> {
    let digits = if s.len() > 0 && s[0] == '+' {
        s.drop_first()
    } else {
        s
    };
    if digits.len() == 0 || !all_dec_digits(digits) || dec_val(digits) > 65535 {
        None
    } else {
        Some(dec_val(digits) as u16)
    }
}

/// Parses `s` as an unsigned 16-bit integer, exactly as `parse_u16_spec`
/// describes it.
pub fn parse_u16(s: &str) -> (r: Option<u16>)
    ensures
        r == parse_u16_spec(s@),
{
    let n = s.unicode_len();
    let start: usize = if n > 0 && s.get_char(0) == '+' {
        1
    } else {
        0
    };
    let ghost digits = s@.subrange(start as int, n as int);
    proof {
        if s@.len() > 0 && s@[0] == '+' {
            assert(digits =~= s@.drop_first());
        } else {
            assert(digits =~= s@);
        }
    }
    if n == start {
        return None;
    }
    let mut acc: u32 = 0;
    let mut i: usize = start;
    proof {
        assert(s@.subrange(start as int, start as int) =~= Seq::<char>::empty());
    }
    while i < n
        invariant
            start <= i <= n,
            n == s@.len(),
            start <= 1,
            digits == s@.subrange(start as int, n as int),
            digits == (if s@.len() > 0 && s@[0] == '+' {
                s@.drop_first()
            } else {
                s@
            }),
            all_dec_digits(s@.subrange(start as int, i as int)),
            acc <= 65535 ==> acc == dec_val(s@.subrange(start as int, i as int)),
            acc > 65535 ==> acc == 70000 && dec_val(s@.subrange(start as int, i as int)) > 65535,
        decreases n - i,
    {
        let c = s.get_char(i);
        let u = c as u32;
        if u < 48 || u > 57 {
            proof {
                assert(digits[i - start] == s@[i as int]);
                assert(!all_dec_digits(digits));
            }
            return None;
        }
        let d = u - 48;
        let ghost prefix = s@.subrange(start as int, i as int);
        let ghost extended = s@.subrange(start as int, i as int + 1);
        proof {
            assert(extended.drop_last() =~= prefix);
            assert(extended.last() == s@[i as int]);
            assert(dec_val(extended) == dec_val(prefix) * 10 + digit_val(s@[i as int]));
        }
        if acc > 65535 {
            proof {
                assert(dec_val(extended) >= dec_val(prefix));
            }
        } else {
            let next = acc * 10 + d;
            if next > 65535 {
                acc = 70000;
            } else {
                acc = next;
            }
        }
        i = i + 1;
    }
    if acc <= 65535 {
        Some(acc as u16)
    } else {
        None
    }
}

/// How the access token resolves: the environment variable when it is set
/// (unusable text is its own failure), the dotfile variable as a fallback,
/// and a missing-token failure when neither yields a value.
pub open spec fn token_resolution(env: VarLookup, file: VarLookup) -> Result<Seq<char>, ClientError> {
    match env {
        VarLookup::Present(s) => Ok(s@),
        VarLookup::Invalid => Err(ClientError::InvalidAccessToken),
        VarLookup::Absent => match file {
            VarLookup::Present(s) => Ok(s@),
            _ => Err(ClientError::MissingAccessToken),
        },
    }
}

/// How the host resolves: required, no fallback.
pub open spec fn host_resolution(host: VarLookup) -> Result<Seq<char>, ClientError> {
    match host {
        VarLookup::Present(s) => Ok(s@),
        VarLookup::Absent => Err(ClientError::MissingHost),
        VarLookup::Invalid => Err(ClientError::InvalidHost),
    }
}

/// How the port resolves: optional with a default, and otherwise required to
/// parse as an unsigned 16-bit integer.
pub open spec fn port_resolution(port: VarLookup) -> Result<u16, ClientError> {
    match port {
        VarLookup::Present(s) => match parse_u16_spec(s@) {
            Some(v) => Ok(v),
            None => Err(ClientError::InvalidPort),
        },
        VarLookup::Absent => Ok(DEFAULT_PORT),
        VarLookup::Invalid => Err(ClientError::InvalidPort),
    }
}

/// The URL a request for `path` goes to.
pub open spec fn url_rep(host: Seq<char>, port: u16, path: Seq<char>) -> Seq<char> {
    "http://"@ + host + ":"@ + dec_rep(port as nat) + path
}

/// The request path that invokes `service` of `domain`.
pub open spec fn service_path_rep(domain: Seq<char>, service: Seq<char>) -> Seq<char> {
    "/api/services/"@ + domain + "/"@ + service
}

/// The JSON body of a service call: exactly one member, `entity_id`, holding
/// the chosen identifier. Which domain or service was selected plays no part.
pub open spec fn service_body_rep(entity_id: Seq<char>) -> Seq<char> {
    "{\"entity_id\":"@ + json_quote(entity_id) + "}"@
}

/// The body of a service call carries the chosen entity identifier and
/// nothing else: whichever domain and service were selected, an identifier of
/// plain characters yields literally `{"entity_id":"<id>"}`.
pub proof fn lemma_service_body_is_chosen_id(entity_id: Seq<char>)
    requires
        forall|i: int| 0 <= i < entity_id.len() ==> plain_json_char(#[trigger] entity_id[i]),
    ensures
        service_body_rep(entity_id) == "{\"entity_id\":\""@ + entity_id + "\"}"@,
{
    reveal_strlit("{\"entity_id\":");
    reveal_strlit("{\"entity_id\":\"");
    reveal_strlit("}");
    reveal_strlit("\"}");
    lemma_json_escape_plain(entity_id);
    assert(service_body_rep(entity_id) =~= "{\"entity_id\":\""@ + entity_id + "\"}"@);
}

impl Client {
    /// Resolves the three looked-up variables into a configuration, checking
    /// the token first, then the host, then the port, and reporting the first
    /// failure.
    pub fn setup(token_env: VarLookup, token_file: VarLookup, host: VarLookup, port: VarLookup) -> (r:
        Result<Client, ClientError>)
        ensures
            match r {
                Ok(c) => token_resolution(token_env, token_file) == Ok::<Seq<char>, ClientError>(
                    c.access_token@,
                ) && host_resolution(host) == Ok::<Seq<char>, ClientError>(c.host@)
                    && port_resolution(port) == Ok::<u16, ClientError>(c.port),
                Err(e) => token_resolution(token_env, token_file) == Err::<Seq<char>, ClientError>(e)
                    || (token_resolution(token_env, token_file) is Ok && host_resolution(host)
                    == Err::<Seq<char>, ClientError>(e)) || (token_resolution(token_env, token_file)
                    is Ok && host_resolution(host) is Ok && port_resolution(port) == Err::<
                    u16,
                    ClientError,
                >(e)),
            },
    {
        let access_token = match token_env {
            VarLookup::Present(s) => s,
            VarLookup::Invalid => {
                return Err(ClientError::InvalidAccessToken);
            },
            VarLookup::Absent => match token_file {
                VarLookup::Present(s) => s,
                _ => {
                    return Err(ClientError::MissingAccessToken);
                },
            },
        };
        let host = match host {
            VarLookup::Present(s) => s,
            VarLookup::Absent => {
                return Err(ClientError::MissingHost);
            },
            VarLookup::Invalid => {
                return Err(ClientError::InvalidHost);
            },
        };
        let port = match port {
            VarLookup::Present(s) => match parse_u16(s.as_str()) {
                Some(v) => v,
                None => {
                    return Err(ClientError::InvalidPort);
                },
            },
            VarLookup::Absent => DEFAULT_PORT,
            VarLookup::Invalid => {
                return Err(ClientError::InvalidPort);
            },
        };
        Ok(Client { access_token, host, port })
    }

    /// The URL a request for `path` goes to, exactly as `url_rep` describes
    /// it.
    pub fn build_url(&self, path: &str) -> (r: String)
        ensures
            r@ == url_rep(self.host@, self.port, path@),
    {
        let mut s = String::from_str("http://");
        s.append(self.host.as_str());
        s.append(":");
        let p = u64_to_dec(self.port as u64);
        s.append(p.as_str());
        s.append(path);
        proof {
            assert(s@ =~= url_rep(self.host@, self.port, path@));
        }
        s
    }
}

/// The request path that invokes `service` of `domain`, exactly as
/// `service_path_rep` describes it.
pub fn service_call_path(domain: &str, service: &str) -> (r: String)
    ensures
        r@ == service_path_rep(domain@, service@),
{
    let mut s = String::from_str("/api/services/");
    s.append(domain);
    s.append("/");
    s.append(service);
    proof {
        assert(s@ =~= service_path_rep(domain@, service@));
    }
    s
}

/// The JSON body of a service call for the chosen entity, exactly as
/// `service_body_rep` describes it.
pub fn service_call_body(entity_id: &str) -> (r: String)
    ensures
        r@ == service_body_rep(entity_id@),
{
    let mut s = String::from_str("{\"entity_id\":");
    let q = json_quote_str(entity_id);
    s.append(q.as_str());
    s.append("}");
    proof {
        assert(s@ =~= service_body_rep(entity_id@));
    }
    s
}

} // verus!
