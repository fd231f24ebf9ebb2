//! HTTP Basic Auth for the UI and the API.
//!
//! Enabled when a username is configured. `/api/health`, the readiness probe
//! and `/metrics` stay open so probes and scrapes need no credentials.

use vstd::prelude::*;
use vstd::utf8::{
    decode_utf8, encode_utf8, encode_utf8_decode_utf8, encode_utf8_valid_utf8, valid_utf8,
};
use base64::Engine;
use crate::text::{chars_eq, chars_of, slice_chars, starts_with, string_of, trim, trim_chars};

verus! {

/// What `base64::Engine::decode` on the `STANDARD` engine returns for the
/// given bytes (`None`: the crate reports a decode error).
pub uninterp spec fn base64_standard_decode(input: Seq<u8>) -> Option<Seq<u8>>;

/// Calls `base64::engine::general_purpose::STANDARD.decode` (the standard
/// alphabet with required padding). The result is named by
/// `base64_standard_decode` and depends on the input alone; what the
/// encoding is, is not written out here.
#[verifier::external_body]
fn decode_standard(input: &[u8]) -> (r: Option<Vec<u8>>)
    ensures
        match base64_standard_decode(input@) {
            Some(v) => r matches Some(x) && x@ == v,
            None => r is None,
        },
{
    base64::engine::general_purpose::STANDARD.decode(input).ok()
}

/// Calls `String::from_utf8`: it accepts exactly the valid UTF-8 byte
/// strings and holds the characters they encode.
#[verifier::external_body]
fn string_from_utf8(bytes: Vec<u8>) -> (r: Option<String>)
    ensures
        r is Some <==> valid_utf8(bytes@),
        r matches Some(s) ==> s@ == decode_utf8(bytes@),
{
    String::from_utf8(bytes).ok()
}

/// Shared static credentials.
#[derive(Clone)]
pub struct BasicAuth {
    pub username: String,
    pub password: String,
}

/// Index of the first `:` at or after `i`, or `s.len()`.
pub open spec fn colon_at(s: Seq<char>, i: int) -> int
    decreases s.len() - i,
{
    if i < 0 || i >= s.len() || s[i] == ':' {
        i
    } else {
        colon_at(s, i + 1)
    }
}

/// `str::split_once(':')`.
pub open spec fn split_colon(s: Seq<char>) -> Option<(Seq<char>, Seq<char>)> {
    let k = colon_at(s, 0);
    if 0 <= k < s.len() {
        Some((s.subrange(0, k), s.subrange(k + 1, s.len() as int)))
    } else {
        None
    }
}

impl BasicAuth {
    /// Whether decoded credential bytes are `user:pass` for this user.
    pub open spec fn creds_match(self, decoded: Seq<u8>) -> bool {
        valid_utf8(decoded) && match split_colon(decode_utf8(decoded)) {
            Some((u, p)) => u == self.username@ && p == self.password@,
            None => false,
        }
    }

    /// Whether an `Authorization` header value carries these credentials:
    /// `Basic `, then (trimmed) the base64 of `user:pass`.
    pub open spec fn matches_spec(self, header: Seq<char>) -> bool {
        "Basic "@.is_prefix_of(header) && match base64_standard_decode(
            encode_utf8(trim(header.subrange("Basic "@.len() as int, header.len() as int))),
        ) {
            Some(d) => self.creds_match(d),
            None => false,
        }
    }

    /// Returns `Some` when auth is configured (username non-empty).
    pub fn from_config(username: &str, password: &str) -> (r: Option<Self>)
        ensures
            username@.len() == 0 ==> r is None,
            username@.len() > 0 ==> (r matches Some(a) && a.username@ == username@ && a.password@
                == password@),
    {
        if username.is_empty() {
            return None;
        }
        Some(Self { username: String::from_str(username), password: String::from_str(password) })
    }

    /// Checks decoded credential bytes: UTF-8 text `user:pass`, split at the first colon.
    pub fn matches_decoded(&self, decoded: Vec<u8>) -> (r: bool)
        ensures
            r == self.creds_match(decoded@),
    {
        let creds = match string_from_utf8(decoded) {
            Some(s) => s,
            None => {
                return false;
            },
        };
        let chars = chars_of(creds.as_str());
        let n = chars.len();
        let mut k: usize = 0;
        while k < n && chars[k] != ':'
            invariant
                n == chars@.len(),
                k <= n,
                colon_at(chars@, 0) == colon_at(chars@, k as int),
            decreases n - k,
        {
            k += 1;
        }
        if k == n {
            return false;
        }
        let user = slice_chars(&chars, 0, k);
        let pass = slice_chars(&chars, k + 1, n);
        let expected_user = chars_of(self.username.as_str());
        let expected_pass = chars_of(self.password.as_str());
        chars_eq(&user, &expected_user) && chars_eq(&pass, &expected_pass)
    }

    /// Whether an `Authorization` header value carries these credentials.
    pub fn matches(&self, header_value: &str) -> (r: bool)
        ensures
            r == self.matches_spec(header_value@),
    {
        let chars = chars_of(header_value);
        let prefix = chars_of("Basic ");
        if !starts_with(&chars, &prefix) {
            return false;
        }
        let rest = slice_chars(&chars, prefix.len(), chars.len());
        let encoded = string_of(&trim_chars(&rest));
        let bytes = encoded.as_str().as_bytes();
        match decode_standard(bytes) {
            Some(decoded) => self.matches_decoded(decoded),
            None => false,
        }
    }
}

/// Whether a request path stays open when auth is enabled: the liveness and
/// readiness probes and the Prometheus scrape.
pub open spec fn is_open_path_spec(path: Seq<char>) -> bool {
    path == "/api/health"@ || path == "/api/health/ready"@ || path == "/metrics"@
}

pub fn is_open_path(path: &str) -> (r: bool)
    ensures
        r == is_open_path_spec(path@),
{
    let p = chars_of(path);
    chars_eq(&p, &chars_of("/api/health")) || chars_eq(&p, &chars_of("/api/health/ready"))
        || chars_eq(&p, &chars_of("/metrics"))
}

/// What the guard does with a request.
#[derive(Clone, Copy, Debug, PartialEq, Eq, Structural)]
pub enum AuthDecision {
    /// Hand the request on.
    Pass,
    /// Answer 401 with a `WWW-Authenticate: Basic` challenge.
    Challenge,
}

/// The guard's decision: everything passes when auth is disabled; open
/// paths always pass; otherwise the `Authorization` header must match.
pub open spec fn guard_spec(auth: Option<BasicAuth>, path: Seq<char>, header: Option<Seq<char>>) -> AuthDecision {
    match auth {
        None => AuthDecision::Pass,
        Some(a) => if is_open_path_spec(path) {
            AuthDecision::Pass
        } else {
            match header {
                Some(h) => if a.matches_spec(h) {
                    AuthDecision::Pass
                } else {
                    AuthDecision::Challenge
                },
                None => AuthDecision::Challenge,
            }
        },
    }
}

/// Decides whether the auth guard lets a request through.
pub fn guard_decision(auth: &Option<BasicAuth>, path: &str, header: Option<&str>) -> (r: AuthDecision)
    ensures
        r == guard_spec(
            *auth,
            path@,
            match header {
                Some(h) => Some(h@),
                None => None,
            },
        ),
{
    match auth {
        None => AuthDecision::Pass,
        Some(a) => {
            if is_open_path(path) {
                return AuthDecision::Pass;
            }
            match header {
                Some(h) => if a.matches(h) {
                    AuthDecision::Pass
                } else {
                    AuthDecision::Challenge
                },
                None => AuthDecision::Challenge,
            }
        },
    }
}

/// With auth disabled every request passes; with auth enabled the probes and
/// the scrape pass without credentials, and any other request passes exactly
/// when its `Authorization` header carries the configured credentials.
pub proof fn law_guard_admits_probes_and_matching_credentials(
    auth: Option<BasicAuth>,
    path: Seq<char>,
    header: Option<Seq<char>>,
)
    ensures
        auth is None ==> guard_spec(auth, path, header) == AuthDecision::Pass,
        is_open_path_spec(path) ==> guard_spec(auth, path, header) == AuthDecision::Pass,
        match auth {
            Some(a) => !is_open_path_spec(path) ==> (guard_spec(auth, path, header)
                == AuthDecision::Pass <==> (header matches Some(h) && a.matches_spec(h))),
            None => true,
        },
{
}

proof fn lemma_colon_at_joined(u: Seq<char>, p: Seq<char>, i: int)
    requires
        0 <= i <= u.len(),
        forall|j: int| 0 <= j < u.len() ==> u[j] != ':',
    ensures
        colon_at(u + seq![':'] + p, i) == u.len(),
    decreases u.len() - i,
{
    let c = u + seq![':'] + p;
    if i < u.len() {
        assert(c[i] == u[i]);
        lemma_colon_at_joined(u, p, i + 1);
    } else {
        assert(c[i] == ':');
    }
}

/// `user:pass` splits back into `user` and `pass` when the user holds no colon.
pub proof fn lemma_split_colon_joined(u: Seq<char>, p: Seq<char>)
    requires
        forall|j: int| 0 <= j < u.len() ==> u[j] != ':',
    ensures
        split_colon(u + seq![':'] + p) == Some((u, p)),
{
    let c = u + seq![':'] + p;
    lemma_colon_at_joined(u, p, 0);
    assert(c.subrange(0, u.len() as int) =~= u);
    assert(c.subrange(u.len() as int + 1, c.len() as int) =~= p);
}

/// A header is accepted exactly when it is `Basic ` followed by text whose
/// base64 decoding (after trimming) is UTF-8 text splitting at its first
/// colon into the configured user and password; no other header is. Hence
/// a header `Basic t`, where `t` has no surrounding whitespace and decodes
/// to the UTF-8 of `user:pass`, is accepted when the user holds no colon.
/// (That base64-encoding `user:pass` gives such a `t` is the base64 crate's
/// round trip, which this library does not state.)
pub proof fn law_basic_auth_accepts_exactly_its_credentials(
    a: BasicAuth,
    h: Seq<char>,
    t: Seq<char>,
)
    ensures
        a.matches_spec(h) <==> ("Basic "@.is_prefix_of(h) && match base64_standard_decode(
            encode_utf8(trim(h.subrange("Basic "@.len() as int, h.len() as int))),
        ) {
            Some(d) => valid_utf8(d) && split_colon(decode_utf8(d)) == Some(
                (a.username@, a.password@),
            ),
            None => false,
        }),
        (forall|j: int| 0 <= j < a.username@.len() ==> a.username@[j] != ':') && trim(t) == t
            && base64_standard_decode(encode_utf8(t)) == Some(
            encode_utf8(a.username@ + seq![':'] + a.password@),
        ) ==> a.matches_spec("Basic "@ + t),
{
    let u = a.username@;
    let p = a.password@;
    if (forall|j: int| 0 <= j < u.len() ==> u[j] != ':') && trim(t) == t
        && base64_standard_decode(encode_utf8(t)) == Some(encode_utf8(u + seq![':'] + p)) {
        let h2 = "Basic "@ + t;
        reveal_strlit("Basic ");
        assert("Basic "@.is_prefix_of(h2));
        assert(h2.subrange("Basic "@.len() as int, h2.len() as int) =~= t);
        encode_utf8_valid_utf8(u + seq![':'] + p);
        encode_utf8_decode_utf8(u + seq![':'] + p);
        lemma_split_colon_joined(u, p);
    }
}

/// With auth enabled, the liveness probe `/api/health`, the readiness probe
/// `/api/health/ready` and the scrape `/metrics` pass without credentials,
/// while a request to any other path without an `Authorization` header is
/// challenged.
pub proof fn law_probes_pass_without_credentials(a: BasicAuth, path: Seq<char>)
    ensures
        guard_spec(Some(a), "/api/health"@, None) == AuthDecision::Pass,
        guard_spec(Some(a), "/api/health/ready"@, None) == AuthDecision::Pass,
        guard_spec(Some(a), "/metrics"@, None) == AuthDecision::Pass,
        path != "/api/health"@ && path != "/api/health/ready"@ && path != "/metrics"@ ==> guard_spec(
            Some(a),
            path,
            None,
        ) == AuthDecision::Challenge,
{
}

} // verus!
