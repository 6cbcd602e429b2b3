//! The request dispatcher's pure pipeline: resolving a pending request
//! against an environment and a base URL into a concrete, validated
//! description of one HTTP call.
//!
//! The steps mirror the send pipeline: compose the URL, substitute
//! variables, parse-check it, append the non-blank query pairs, collect the
//! non-blank cookie and header pairs, force the JSON content type, and add
//! the bearer line when the substituted token is non-blank. The network
//! call itself happens outside the library, on the `ResolvedRequest` this
//! module produces.

use vstd::prelude::*;
use vstd::string::StringExecFns;
use crate::env::Env;
use crate::http_method::HttpMethod;
use crate::request::FalconAuthorization;
use crate::request::FlBody;
use crate::request::PendingRequest;
use crate::request_url::build_spec;
use crate::request_url::RequestUrl;
use crate::rows::kv_view;
use crate::subst::is_ws;
use crate::subst::ws_char;
use crate::subst::substituted;
use crate::text::str_chars;

verus! {

/// What the URL library accepts as a URL.
pub uninterp spec fn parses_as_url(s: Seq<char>) -> bool;

/// The URL text after appending one percent-encoded query pair.
pub uninterp spec fn with_query_pair(url: Seq<char>, key: Seq<char>, value: Seq<char>) -> Seq<
    char,
>;

/// What the header library accepts as a header name.
pub uninterp spec fn is_header_name(s: Seq<char>) -> bool;

/// What the header library accepts as a header value.
pub uninterp spec fn is_header_value(s: Seq<char>) -> bool;

/// Relies on `url::Url::parse`: whether the text parses as a URL; the
/// outcome depends on the text alone.
#[verifier::external_body]
fn url_parses(s: &str) -> (r: bool)
    ensures
        r == parses_as_url(s@),
{
    url::Url::parse(s).is_ok()
}

/// Relies on `url::Url::parse`, `url::Url::query_pairs_mut` (whose
/// `append_pair` percent-encodes and appends one pair) and `url::Url::as_str`:
/// appends one query pair to a parseable URL. The serialization of a parsed
/// URL is itself a parseable URL, so the result parses again.
#[verifier::external_body]
fn append_query_pair(url: &str, key: &str, value: &str) -> (r: Option<String>)
    ensures
        r is Some <==> parses_as_url(url@),
        r matches Some(u) ==> u@ == with_query_pair(url@, key@, value@) && parses_as_url(u@),
{
    match url::Url::parse(url) {
        Ok(mut u) => {
            u.query_pairs_mut().append_pair(key, value);
            Some(u.as_str().to_string())
        },
        Err(_) => None,
    }
}

/// Relies on `reqwest::header::HeaderName::from_bytes`: whether the text is
/// a valid header name; the outcome depends on the bytes alone.
#[verifier::external_body]
fn header_name_ok(s: &str) -> (r: bool)
    ensures
        r == is_header_name(s@),
{
    reqwest::header::HeaderName::from_bytes(s.as_bytes()).is_ok()
}

/// Relies on `reqwest::header::HeaderValue::from_str`: whether the text is
/// a valid header value; the outcome depends on the text alone.
#[verifier::external_body]
fn header_value_ok(s: &str) -> (r: bool)
    ensures
        r == is_header_value(s@),
{
    reqwest::header::HeaderValue::from_str(s).is_ok()
}

/// Whether a text is blank: nothing but white space (an empty text is
/// blank).
pub open spec fn is_blank(s: Seq<char>) -> bool {
    forall|i: int| 0 <= i < s.len() ==> is_ws(#[trigger] s[i])
}

fn blank_text(s: &str) -> (r: bool)
    ensures
        r == is_blank(s@),
{
    let v: Vec<char> = str_chars(s);
    let mut i: usize = 0;
    while i < v.len()
        invariant
            v@ == s@,
            i <= v@.len(),
            forall|j: int| 0 <= j < i ==> is_ws(#[trigger] v@[j]),
        decreases v@.len() - i,
    {
        if !ws_char(v[i]) {
            return false;
        }
        i = i + 1;
    }
    true
}

/// The rows with a non-blank key, each key and value substituted.
pub open spec fn resolved_rows(
    rows: Seq<(Seq<char>, Seq<char>)>,
    envs: Seq<(Seq<char>, Seq<char>)>,
) -> Seq<(Seq<char>, Seq<char>)>
    decreases rows.len(),
{
    if rows.len() == 0 {
        Seq::<(Seq<char>, Seq<char>)>::empty()
    } else {
        let rest = resolved_rows(rows.drop_last(), envs);
        if !is_blank(rows.last().0) {
            rest.push((substituted(rows.last().0, envs), substituted(rows.last().1, envs)))
        } else {
            rest
        }
    }
}

/// The URL after appending each pair in turn.
pub open spec fn url_with_queries(
    base: Seq<char>,
    pairs: Seq<(Seq<char>, Seq<char>)>,
) -> Seq<char>
    decreases pairs.len(),
{
    if pairs.len() == 0 {
        base
    } else {
        url_with_queries(
            with_query_pair(base, pairs.first().0, pairs.first().1),
            pairs.drop_first(),
        )
    }
}

/// The substituted bearer prefix and token.
pub open spec fn auth_parts(a: FalconAuthorization, envs: Seq<(Seq<char>, Seq<char>)>) -> (
    Seq<char>,
    Seq<char>,
) {
    match a {
        FalconAuthorization::Bearer { prefix, token } => (
            substituted(prefix@, envs),
            substituted(token@, envs),
        ),
    }
}

/// The `Authorization` header line: `<prefix> <token>`.
pub open spec fn auth_line(pfx: Seq<char>, tok: Seq<char>) -> Seq<char> {
    pfx + seq![' '] + tok
}

/// Why a send cannot proceed. Transport failures are reported by the I/O
/// shell that performs the actual call; the pipeline itself only produces
/// the first three.
#[derive(Debug, Clone)]
pub enum SendError {
    InvalidUrl(String),
    InvalidHeaderName(String),
    InvalidHeaderValue(String),
    Transport(String),
}

impl SendError {
    /// A human-readable message for the error.
    pub fn message(&self) -> (r: String)
        ensures
            match self {
                SendError::InvalidUrl(u) => r@ == "invalid URL: "@ + u@,
                SendError::InvalidHeaderName(n) => r@ == "invalid header name: "@ + n@,
                SendError::InvalidHeaderValue(v) => r@ == "invalid header value: "@ + v@,
                SendError::Transport(m) => r@ == "transport error: "@ + m@,
            },
    {
        match self {
            SendError::InvalidUrl(u) => String::from_str("invalid URL: ").concat(u.as_str()),
            SendError::InvalidHeaderName(n) => String::from_str("invalid header name: ").concat(
                n.as_str(),
            ),
            SendError::InvalidHeaderValue(v) => String::from_str("invalid header value: ").concat(
                v.as_str(),
            ),
            SendError::Transport(m) => String::from_str("transport error: ").concat(m.as_str()),
        }
    }
}

/// A fully resolved, validated description of one HTTP call: everything
/// the I/O shell needs to perform it.
#[derive(Debug, Clone)]
pub struct ResolvedRequest {
    /// The final URL, queries included.
    pub url: String,
    pub method: HttpMethod,
    /// Substituted non-blank header pairs, then `Content-Type`, then (when
    /// the token is non-blank) `Authorization`; applied in order with
    /// replace-by-name semantics, later entries override earlier ones.
    pub headers: Vec<(String, String)>,
    /// Substituted non-blank cookie pairs for the call's cookie jar.
    pub cookies: Vec<(String, String)>,
    /// The raw JSON body text.
    pub body: String,
}

fn resolve_rows(rows: &Vec<(String, String)>, env: &Env) -> (r: Vec<(String, String)>)
    ensures
        kv_view(r@) == resolved_rows(kv_view(rows@), kv_view(env.items@)),
{
    let ghost envs = kv_view(env.items@);
    let mut out: Vec<(String, String)> = Vec::new();
    let mut i: usize = 0;
    proof {
        assert(kv_view(rows@).take(0) =~= kv_view(rows@.take(0)));
        assert(kv_view(out@) =~= resolved_rows(kv_view(rows@.take(0)), envs));
    }
    while i < rows.len()
        invariant
            i <= rows@.len(),
            envs == kv_view(env.items@),
            kv_view(out@) == resolved_rows(kv_view(rows@.take(i as int)), envs),
        decreases rows@.len() - i,
    {
        proof {
            assert(kv_view(rows@.take(i + 1 as int)).drop_last() =~= kv_view(rows@.take(i as int)));
            assert(kv_view(rows@.take(i + 1 as int)).last() == (rows@[i as int].0@, rows@[i as int].1@));
        }
        if !blank_text(rows[i].0.as_str()) {
            let key: String = env.replace_variables(rows[i].0.as_str());
            let value: String = env.replace_variables(rows[i].1.as_str());
            out.push((key, value));
            proof {
                assert(kv_view(out@) =~= resolved_rows(kv_view(rows@.take(i + 1 as int)), envs));
            }
        } else {
            proof {
                assert(kv_view(out@) =~= resolved_rows(kv_view(rows@.take(i + 1 as int)), envs));
            }
        }
        i = i + 1;
    }
    proof {
        assert(rows@.take(rows@.len() as int) =~= rows@);
    }
    out
}

impl PendingRequest {
    /// Resolves this request against an environment and a base URL: the
    /// composed, substituted URL must parse; non-blank query pairs are
    /// appended to it; non-blank cookie and header pairs are substituted;
    /// `Content-Type: application/json` overrides any user value; a
    /// non-blank substituted bearer token adds the `Authorization` line.
    /// Each validation failure reports the offending text.
    pub fn prepare(&self, env: &Env, base_url: &str) -> (r: Result<ResolvedRequest, SendError>)
        ensures
            ({
                let envs = kv_view(env.items@);
                let u0 = substituted(build_spec(self.url@, base_url@), envs);
                let hs = resolved_rows(kv_view(self.headers@), envs);
                let ap = auth_parts(self.authorization, envs);
                match r {
                    Ok(res) => {
                        &&& parses_as_url(u0)
                        &&& forall|k: int|
                            0 <= k < hs.len() ==> is_header_name((#[trigger] hs[k]).0)
                                && is_header_value(hs[k].1)
                        &&& is_header_value("application/json"@)
                        &&& (!is_blank(ap.1) ==> is_header_value(auth_line(ap.0, ap.1)))
                        &&& res.url@ == url_with_queries(
                            u0,
                            resolved_rows(kv_view(self.queries@), envs),
                        )
                        &&& kv_view(res.cookies@) == resolved_rows(kv_view(self.cookies@), envs)
                        &&& kv_view(res.headers@) == hs.push(
                            ("Content-Type"@, "application/json"@),
                        ) + (if !is_blank(ap.1) {
                            seq![("Authorization"@, auth_line(ap.0, ap.1))]
                        } else {
                            Seq::<(Seq<char>, Seq<char>)>::empty()
                        })
                        &&& res.method == self.method
                        &&& (self.body matches FlBody::ApplicationJson(j) && res.body@ == j@)
                    },
                    Err(e) => match e {
                        SendError::InvalidUrl(u) => !parses_as_url(u0) && u@ == u0,
                        SendError::InvalidHeaderName(nm) => parses_as_url(u0) && !is_header_name(
                            nm@,
                        ) && exists|k: int| 0 <= k < hs.len() && (#[trigger] hs[k]).0 == nm@,
                        SendError::InvalidHeaderValue(v) => parses_as_url(u0) && !is_header_value(
                            v@,
                        ) && ((exists|k: int| 0 <= k < hs.len() && (#[trigger] hs[k]).1 == v@)
                            || v@ == "application/json"@ || (!is_blank(ap.1) && v@ == auth_line(
                            ap.0,
                            ap.1,
                        ))),
                        SendError::Transport(m) => false,
                    },
                }
            }),
    {
        let ghost envs = kv_view(env.items@);
        // Step 1: compose against the base URL, substitute, parse-check.
        let built: String = RequestUrl::from(self.url.clone()).build(base_url);
        let u0: String = env.replace_variables(built.as_str());
        if !url_parses(u0.as_str()) {
            return Err(SendError::InvalidUrl(u0));
        }
        // Step 2: append the non-blank query pairs.
        let qs: Vec<(String, String)> = resolve_rows(&self.queries, env);
        let ghost qsv = kv_view(qs@);
        let mut cur: String = u0;
        let mut k: usize = 0;
        proof {
            assert(qsv.skip(0) =~= qsv);
        }
        while k < qs.len()
            invariant
                k <= qs@.len(),
                qsv == kv_view(qs@),
                parses_as_url(cur@),
                url_with_queries(substituted(build_spec(self.url@, base_url@), kv_view(env.items@)), qsv)
                    == url_with_queries(cur@, qsv.skip(k as int)),
            decreases qs@.len() - k,
        {
            proof {
                assert(qsv.skip(k as int).first() == (qs@[k as int].0@, qs@[k as int].1@));
                assert(qsv.skip(k as int).drop_first() =~= qsv.skip(k + 1 as int));
            }
            match append_query_pair(cur.as_str(), qs[k].0.as_str(), qs[k].1.as_str()) {
                Some(u) => {
                    cur = u;
                },
                None => {
                    // unreachable: the current URL always parses
                    assert(false);
                    return Err(SendError::InvalidUrl(cur));
                },
            }
            k = k + 1;
        }
        proof {
            assert(qsv.skip(qsv.len() as int) =~= Seq::<(Seq<char>, Seq<char>)>::empty());
        }
        // Step 3: cookies.
        let cs: Vec<(String, String)> = resolve_rows(&self.cookies, env);
        // Step 4: headers, validated, with the JSON content type forced.
        let mut headers: Vec<(String, String)> = resolve_rows(&self.headers, env);
        let ghost hs = kv_view(headers@);
        let mut h: usize = 0;
        while h < headers.len()
            invariant
                h <= headers@.len(),
                hs == kv_view(headers@),
                hs == resolved_rows(kv_view(self.headers@), kv_view(env.items@)),
                parses_as_url(substituted(build_spec(self.url@, base_url@), kv_view(env.items@))),
                forall|k2: int|
                    0 <= k2 < h ==> is_header_name((#[trigger] hs[k2]).0) && is_header_value(
                        hs[k2].1,
                    ),
            decreases headers@.len() - h,
        {
            if !header_name_ok(headers[h].0.as_str()) {
                let nm: String = headers[h].0.clone();
                proof {
                    assert(0 <= h < hs.len() && hs[h as int].0 == nm@);
                }
                return Err(SendError::InvalidHeaderName(nm));
            }
            if !header_value_ok(headers[h].1.as_str()) {
                let v: String = headers[h].1.clone();
                proof {
                    assert(0 <= h < hs.len() && hs[h as int].1 == v@);
                }
                return Err(SendError::InvalidHeaderValue(v));
            }
            h = h + 1;
        }
        if !header_value_ok("application/json") {
            return Err(SendError::InvalidHeaderValue("application/json".to_owned()));
        }
        headers.push(("Content-Type".to_owned(), "application/json".to_owned()));
        // Step 5: the bearer line, when the substituted token is non-blank.
        let ghost pre_auth = kv_view(headers@);
        match &self.authorization {
            FalconAuthorization::Bearer { prefix, token } => {
                let pfx: String = env.replace_variables(prefix.as_str());
                let tok: String = env.replace_variables(token.as_str());
                if !blank_text(tok.as_str()) {
                    let mut line: String = pfx;
                    line.append(" ");
                    line.append(tok.as_str());
                    proof {
                        reveal_strlit(" ");
                        assert(line@ =~= auth_line(
                            auth_parts(self.authorization, envs).0,
                            auth_parts(self.authorization, envs).1,
                        ));
                    }
                    if !header_value_ok(line.as_str()) {
                        return Err(SendError::InvalidHeaderValue(line));
                    }
                    headers.push(("Authorization".to_owned(), line));
                    proof {
                        assert(kv_view(headers@) =~= hs.push(
                            ("Content-Type"@, "application/json"@),
                        ) + seq![
                            ("Authorization"@, auth_line(
                                auth_parts(self.authorization, envs).0,
                                auth_parts(self.authorization, envs).1,
                            )),
                        ]);
                    }
                } else {
                    proof {
                        assert(kv_view(headers@) =~= hs.push(
                            ("Content-Type"@, "application/json"@),
                        ) + Seq::<(Seq<char>, Seq<char>)>::empty());
                    }
                }
            },
        }
        // The body text.
        let body: String = match &self.body {
            FlBody::ApplicationJson(j) => j.clone(),
        };
        Ok(ResolvedRequest { url: cur, method: self.method, headers, cookies: cs, body })
    }
}

} // verus!
