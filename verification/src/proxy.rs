//! The proxy's decisions about one request: which paths it answers itself,
//! which target serves a path, how the request to the target is written,
//! when an attempt is retried, and which headers the answer carries.
use vstd::prelude::*;
use crate::headers::{
    Headers,
    Field,
    lookup,
    inserted,
    is_text,
    ascii_text,
    value_to_text,
    value_text_ok,
    text_is_value,
    parse_header_name,
    text_bytes,
};
use crate::text::{chars_of, chars_eq, chars_starts_with, is_prefix, string_from_chars, str_eq};
use crate::cache::{
    Cache,
    CacheEntry,
    CorsConfig,
    EntryView,
    cors_config_ok,
    vary_value,
    create_cache_key,
    key_material,
    lookup_at,
    after_lookup,
    put_entry,
    put_result,
    within_size,
    law_put_keeps_size,
    entry_from,
    hex_u64,
};
use crate::text::spec_hash_str;
use crate::circuit_breaker::{CircuitBreaker, CircuitState};
use crate::error::ProxyError;
use vstd::utf8::encode_utf8;
use dashmap::DashMap;
use vstd::string::*;

verus! {

// ---------------------------------------------------------------------------
// Paths the proxy answers itself
// ---------------------------------------------------------------------------

/// How the proxy handles a path.
#[derive(Debug, Clone, Copy, PartialEq, Eq, Structural)]
pub enum PathKind {
    /// `/health`: answered "OK".
    Health,
    /// `/metrics`: answered with the gathered metrics.
    Metrics,
    /// Anything else: served from a static file or a target.
    Proxied,
}

/// How the proxy handles `path`.
pub open spec fn path_kind_of(path: Seq<char>) -> PathKind {
    if path == "/health"@ {
        PathKind::Health
    } else if path == "/metrics"@ {
        PathKind::Metrics
    } else {
        PathKind::Proxied
    }
}

/// How the proxy handles `path`.
pub fn classify_path(path: &str) -> (k: PathKind)
    ensures
        k == path_kind_of(path@),
{
    if str_eq(path, "/health") {
        PathKind::Health
    } else if str_eq(path, "/metrics") {
        PathKind::Metrics
    } else {
        PathKind::Proxied
    }
}

// ---------------------------------------------------------------------------
// Finding the target of a path
// ---------------------------------------------------------------------------

/// A target as routing sees it: when it routes by a header, the header's name
/// and the values it accepts, each with the URL it names.
#[derive(Debug, Clone)]
pub struct TargetRoute {
    pub routing_header: Option<String>,
    pub routing_values: Option<Vec<(String, String)>>,
}

/// The text that routing compares: the header value read as text, or the
/// empty text when it does not read as text.
pub open spec fn routing_text(v: Seq<u8>) -> Seq<char> {
    if is_text(v) {
        ascii_text(v)
    } else {
        Seq::empty()
    }
}

/// Whether a list of (value, URL) pairs holds the value `key`.
pub open spec fn has_key(values: Seq<(String, String)>, key: Seq<char>) -> bool {
    exists|i: int| 0 <= i < values.len() && (#[trigger] values[i]).0@ == key
}

/// Whether the header fields `h` let `route` serve a request: a route that
/// routes by a header needs the header, with one of its accepted values.
pub open spec fn header_admits(route: TargetRoute, h: Seq<Field>) -> bool {
    match route.routing_header {
        None => true,
        Some(name) => match vary_value(h, name@) {
            Some(v) => match route.routing_values {
                Some(values) => has_key(values@, routing_text(v)),
                None => false,
            },
            None => false,
        },
    }
}

/// Whether the route registered for the path prefix `prefix` serves a
/// request for `path` with header fields `h`.
pub open spec fn route_serves(prefix: Seq<char>, route: TargetRoute, path: Seq<char>, h: Seq<Field>) -> bool {
    is_prefix(prefix, path) && header_admits(route, h)
}

/// Whether the list of pairs holds the value `key`.
fn holds_key(values: &Vec<(String, String)>, key: &str) -> (r: bool)
    ensures
        r == has_key(values@, key@),
{
    let mut i: usize = 0;
    while i < values.len()
        invariant
            i <= values@.len(),
            forall|j: int| 0 <= j < i ==> (#[trigger] values@[j]).0@ != key@,
        decreases values@.len() - i,
    {
        if str_eq(values[i].0.as_str(), key) {
            return true;
        }
        i = i + 1;
    }
    false
}

/// Whether these header fields let `route` serve a request.
pub fn admits(route: &TargetRoute, headers: &Headers) -> (r: bool)
    ensures
        r == header_admits(*route, headers@),
{
    match &route.routing_header {
        None => true,
        Some(name) => {
            let value = match parse_header_name(name.as_str()) {
                Some(n) => headers.get(n.as_str()),
                None => None,
            };
            match value {
                Some(v) => match &route.routing_values {
                    Some(values) => {
                        let text = match value_to_text(v.as_slice()) {
                            Some(t) => t,
                            None => String::new(),
                        };
                        holds_key(values, text.as_str())
                    },
                    None => false,
                },
                None => false,
            }
        },
    }
}

/// What a map of routes holds: each path prefix with its route.
pub uninterp spec fn routes_held(m: DashMap<String, TargetRoute>) -> Map<Seq<char>, TargetRoute>;

/// A map of routes without entries.
pub open spec fn no_routes() -> Map<Seq<char>, TargetRoute> {
    Map::empty()
}

/// An empty map of routes, made with `DashMap::new`.
#[verifier::external_body]
fn routes_new() -> (r: DashMap<String, TargetRoute>)
    ensures
        routes_held(r) == no_routes(),
{
    DashMap::new()
}

/// Registers `route` for `prefix` with `DashMap::insert`, which replaces a
/// route already registered for it.
#[verifier::external_body]
fn routes_insert(m: &mut DashMap<String, TargetRoute>, prefix: String, route: TargetRoute)
    ensures
        routes_held(*final(m)) == routes_held(*old(m)).insert(prefix@, route),
{
    m.insert(prefix, route);
}

/// Every registered prefix, read with `DashMap::iter`, which visits every
/// entry once, in no stated order.
#[verifier::external_body]
fn route_prefixes(m: &DashMap<String, TargetRoute>) -> (r: Vec<String>)
    ensures
        forall|i: int| 0 <= i < r@.len() ==> routes_held(*m).contains_key((#[trigger] r@[i])@),
        forall|k: Seq<char>|
            #[trigger] routes_held(*m).contains_key(k) ==> exists|i: int|
                0 <= i < r@.len() && (#[trigger] r@[i])@ == k,
{
    m.iter().map(|entry| entry.key().clone()).collect()
}

/// Whether the route registered for `prefix`, if any, admits these header
/// fields, read with `DashMap::view`, which hands the route under the key to
/// the closure and returns its result; the closure is the verified `admits`.
#[verifier::external_body]
fn route_admits(m: &DashMap<String, TargetRoute>, prefix: &str, headers: &Headers) -> (r: Option<bool>)
    ensures
        match r {
            Some(b) => routes_held(*m).contains_key(prefix@) && b == header_admits(
                routes_held(*m)[prefix@],
                headers@,
            ),
            None => !routes_held(*m).contains_key(prefix@),
        },
{
    m.view(prefix, |_, route| admits(route, headers))
}

/// The targets' routes by path prefix; registering a prefix again replaces
/// its route.
pub struct TargetMap {
    routes: DashMap<String, TargetRoute>,
}

impl View for TargetMap {
    type V = Map<Seq<char>, TargetRoute>;

    closed spec fn view(&self) -> Map<Seq<char>, TargetRoute> {
        routes_held(self.routes)
    }
}

impl TargetMap {
    /// A map without routes.
    pub fn new() -> (t: TargetMap)
        ensures
            t@ == no_routes(),
    {
        TargetMap { routes: routes_new() }
    }

    /// Registers `route` for the path prefix `prefix`.
    pub fn insert(&mut self, prefix: String, route: TargetRoute)
        ensures
            final(self)@ == old(self)@.insert(prefix@, route),
    {
        routes_insert(&mut self.routes, prefix, route);
    }
}

/// A registered prefix whose route serves a request for `path` with these
/// header fields, and that prefix's length; `None` when no route serves it.
/// Which of several serving routes is found is left open, as the map's
/// order is.
pub fn find_target(map: &TargetMap, path: &str, headers: &Headers) -> (r: Option<(String, usize)>)
    ensures
        match r {
            Some((k, n)) => map@.contains_key(k@) && route_serves(k@, map@[k@], path@, headers@) && n
                == k@.len(),
            None => forall|k: Seq<char>|
                #[trigger] map@.contains_key(k) ==> !route_serves(k, map@[k], path@, headers@),
        },
{
    let p = chars_of(path);
    let prefixes = route_prefixes(&map.routes);
    let mut i: usize = 0;
    while i < prefixes.len()
        invariant
            p@ == path@,
            i <= prefixes@.len(),
            forall|j: int| 0 <= j < prefixes@.len() ==> map@.contains_key((#[trigger] prefixes@[j])@),
            forall|k: Seq<char>|
                #[trigger] map@.contains_key(k) ==> exists|j: int|
                    0 <= j < prefixes@.len() && (#[trigger] prefixes@[j])@ == k,
            forall|j: int|
                0 <= j < i ==> !route_serves(
                    (#[trigger] prefixes@[j])@,
                    map@[prefixes@[j]@],
                    path@,
                    headers@,
                ),
        decreases prefixes@.len() - i,
    {
        let k = chars_of(prefixes[i].as_str());
        if chars_starts_with(p.as_slice(), k.as_slice()) {
            match route_admits(&map.routes, prefixes[i].as_str(), headers) {
                Some(true) => {
                    let n = k.len();
                    return Some((prefixes[i].clone(), n));
                },
                _ => {},
            }
        }
        i = i + 1;
    }
    proof {
        assert forall|k: Seq<char>| #[trigger] map@.contains_key(k) implies !route_serves(
            k,
            map@[k],
            path@,
            headers@,
        ) by {
            let j = choose|j: int| 0 <= j < prefixes@.len() && (#[trigger] prefixes@[j])@ == k;
        }
    }
    None
}

// ---------------------------------------------------------------------------
// The request to the target
// ---------------------------------------------------------------------------

/// The URI of the request to `target_url`: the URL, then the path after the
/// target's prefix of `prefix_len` characters, then the query if there is one.
pub open spec fn upstream_uri_of(target_url: Seq<char>, path: Seq<char>, prefix_len: nat, query: Seq<char>) -> Seq<char> {
    if query.len() == 0 {
        target_url + path.skip(prefix_len as int)
    } else {
        target_url + path.skip(prefix_len as int) + seq!['?'] + query
    }
}

/// The URI of the request to the target.
pub fn upstream_uri(target_url: &str, path: &str, prefix_len: usize, query: &str) -> (r: String)
    requires
        prefix_len <= path@.len(),
    ensures
        r@ == upstream_uri_of(target_url@, path@, prefix_len as nat, query@),
{
    let p = chars_of(path);
    let q = chars_of(query);
    let mut out = chars_of(target_url);
    let mut i: usize = prefix_len;
    let ghost start = out@;
    while i < p.len()
        invariant
            p@ == path@,
            prefix_len <= i <= p@.len(),
            out@ == start + p@.subrange(prefix_len as int, i as int),
        decreases p@.len() - i,
    {
        out.push(p[i]);
        i = i + 1;
        proof {
            assert(out@ =~= start + p@.subrange(prefix_len as int, i as int));
        }
    }
    proof {
        assert(p@.subrange(prefix_len as int, p@.len() as int) =~= path@.skip(prefix_len as int));
    }
    if q.len() > 0 {
        let ghost before = out@;
        out.push('?');
        let mut j: usize = 0;
        while j < q.len()
            invariant
                q@ == query@,
                j <= q@.len(),
                out@ == before + seq!['?'] + q@.take(j as int),
            decreases q@.len() - j,
        {
            out.push(q[j]);
            j = j + 1;
            proof {
                assert(out@ =~= before + seq!['?'] + q@.take(j as int));
            }
        }
        proof {
            assert(q@.take(q@.len() as int) =~= q@);
        }
    }
    string_from_chars(out.as_slice())
}

/// The X-Forwarded-For value of the request to the target: the request's own
/// value followed by the client's address, or the address alone.
pub open spec fn forwarded_for_of(h: Seq<Field>, client_ip: Seq<char>) -> Seq<char> {
    match lookup(h, "x-forwarded-for"@) {
        Some(v) => if is_text(v) {
            ascii_text(v) + ", "@ + client_ip
        } else {
            client_ip
        },
        None => client_ip,
    }
}

/// The X-Forwarded-For value of the request to the target.
pub fn forwarded_for(headers: &Headers, client_ip: &str) -> (r: String)
    ensures
        r@ == forwarded_for_of(headers@, client_ip@),
{
    match headers.get("x-forwarded-for") {
        Some(v) => match value_to_text(v.as_slice()) {
            Some(t) => t.concat(", ").concat(client_ip),
            None => client_ip.to_owned(),
        },
        None => client_ip.to_owned(),
    }
}

/// The fields after setting each field of `s` in turn: a name that occurs
/// several times keeps its last value, in the place of its first.
pub open spec fn copied(s: Seq<Field>) -> Seq<Field>
    decreases s.len(),
{
    if s.len() == 0 {
        Seq::empty()
    } else {
        inserted(copied(s.drop_last()), s.last().0, s.last().1)
    }
}

/// The header fields of the request to the target.
pub open spec fn upstream_headers_of(h: Seq<Field>, client_ip: Seq<char>, authority: Option<Seq<char>>) -> Seq<Field> {
    let with_forwarded = inserted(copied(h), "x-forwarded-for"@, encode_utf8(forwarded_for_of(h, client_ip)));
    let with_host = match authority {
        Some(a) => inserted(with_forwarded, "host"@, encode_utf8(a)),
        None => with_forwarded,
    };
    inserted(with_host, "x-proxy"@, encode_utf8("road7"@))
}

/// The header fields of the request to the target: the request's fields,
/// X-Forwarded-For with the client's address, Host with the target's
/// authority, and X-Proxy.
pub fn upstream_headers(headers: &Headers, client_ip: &str, authority: Option<&str>) -> (r: Headers)
    requires
        value_text_ok(forwarded_for_of(headers@, client_ip@)),
        authority matches Some(a) ==> value_text_ok(a@),
    ensures
        r@ == upstream_headers_of(headers@, client_ip@, match authority {
            Some(a) => Some(a@),
            None => None,
        }),
{
    let entries = headers.entries();
    let mut out = Headers::new();
    let mut i: usize = 0;
    while i < entries.len()
        invariant
            headers@ == Seq::new(entries@.len(), |k: int| (entries@[k].0@, entries@[k].1@)),
            i <= entries@.len(),
            out@ == copied(headers@.take(i as int)),
        decreases entries@.len() - i,
    {
        proof {
            assert(headers@.take(i + 1).drop_last() =~= headers@.take(i as int));
            assert(headers@.take(i + 1).last() == (entries@[i as int].0@, entries@[i as int].1@));
        }
        out.insert(entries[i].0.as_str(), vstd::slice::slice_to_vec(entries[i].1.as_slice()));
        i = i + 1;
    }
    proof {
        assert(headers@.take(entries@.len() as int) =~= headers@);
    }
    let xff = forwarded_for(headers, client_ip);
    out.insert("x-forwarded-for", text_bytes(xff.as_str()));
    match authority {
        Some(a) => out.insert("host", text_bytes(a)),
        None => {},
    }
    out.insert("x-proxy", text_bytes("road7"));
    out
}

/// What parsing `uri` as an HTTP URI gives: `None` when it is not one,
/// else its authority, if it has one.
pub uninterp spec fn spec_uri_authority(uri: Seq<char>) -> Option<Option<Seq<char>>>;

/// Parses `uri` as an HTTP URI and gives its authority, if it has one, or
/// `None` when the text is not a URI.
///
/// This calls `http::Uri::from_str` and `Uri::authority`. The contract says
/// only that the result is a function of the text, named
/// `spec_uri_authority`: what the grammar accepts is left unsaid.
#[verifier::external_body]
fn uri_authority(uri: &str) -> (r: Option<Option<String>>)
    ensures
        match r {
            None => spec_uri_authority(uri@) is None,
            Some(None) => spec_uri_authority(uri@) == Some(None::<Seq<char>>),
            Some(Some(a)) => spec_uri_authority(uri@) == Some(Some(a@)),
        },
{
    match uri.parse::<http::Uri>() {
        Ok(u) => match u.authority() {
            Some(a) => Some(Some(a.as_str().to_string())),
            None => Some(None),
        },
        Err(_) => None,
    }
}

/// The URI and header fields of the request to the target, or `None` when
/// the URI does not parse or a header value it would set is not header text.
pub open spec fn upstream_request_of(
    h: Seq<Field>,
    target_url: Seq<char>,
    path: Seq<char>,
    prefix_len: nat,
    query: Seq<char>,
    client_ip: Seq<char>,
) -> Option<(Seq<char>, Seq<Field>)> {
    let uri = upstream_uri_of(target_url, path, prefix_len, query);
    match spec_uri_authority(uri) {
        None => None,
        Some(authority) => if value_text_ok(forwarded_for_of(h, client_ip)) && (authority matches Some(
            a,
        ) ==> value_text_ok(a)) {
            Some((uri, upstream_headers_of(h, client_ip, authority)))
        } else {
            None
        },
    }
}

/// The request to the target: its URI, built from the target's URL, the
/// path after the target's prefix and the query, and its header fields, with
/// Host set to the authority of that URI.
pub fn upstream_request(
    headers: &Headers,
    target_url: &str,
    path: &str,
    prefix_len: usize,
    query: &str,
    client_ip: &str,
) -> (r: Option<(String, Headers)>)
    requires
        prefix_len <= path@.len(),
    ensures
        match upstream_request_of(headers@, target_url@, path@, prefix_len as nat, query@, client_ip@) {
            None => r is None,
            Some((u, h)) => r matches Some(p) && p.0@ == u && p.1@ == h,
        },
{
    let uri = upstream_uri(target_url, path, prefix_len, query);
    match uri_authority(uri.as_str()) {
        None => None,
        Some(authority) => {
            let xff = forwarded_for(headers, client_ip);
            if !text_is_value(xff.as_str()) {
                return None;
            }
            match authority {
                Some(a) => {
                    if !text_is_value(a.as_str()) {
                        return None;
                    }
                    let h = upstream_headers(headers, client_ip, Some(a.as_str()));
                    Some((uri, h))
                },
                None => {
                    let h = upstream_headers(headers, client_ip, None);
                    Some((uri, h))
                },
            }
        },
    }
}

/// The value of the last field named `name`, if any.
pub open spec fn last_value(h: Seq<Field>, name: Seq<char>) -> Option<Seq<u8>>
    decreases h.len(),
{
    if h.len() == 0 {
        None
    } else if h.last().0 == name {
        Some(h.last().1)
    } else {
        last_value(h.drop_last(), name)
    }
}

/// Copying the fields one by one keeps, for each name, its last value.
pub proof fn law_copied_keeps_last_values(h: Seq<Field>, name: Seq<char>)
    ensures
        lookup(copied(h), name) == last_value(h, name),
    decreases h.len(),
{
    if h.len() > 0 {
        law_copied_keeps_last_values(h.drop_last(), name);
        crate::headers::law_get_after_insert(copied(h.drop_last()), h.last().0, h.last().1, name);
    }
}

/// The request to the target carries the client's address after the
/// forwarded addresses it came with (when they read as text), Host with the
/// target's authority when there is one, X-Proxy, and otherwise the
/// request's own fields, each with its last value.
pub proof fn law_upstream_fields(h: Seq<Field>, client_ip: Seq<char>, authority: Option<Seq<char>>, other: Seq<char>)
    ensures
        lookup(upstream_headers_of(h, client_ip, authority), "x-forwarded-for"@) == Some(
            encode_utf8(forwarded_for_of(h, client_ip)),
        ),
        lookup(h, "x-forwarded-for"@) is Some && is_text(lookup(h, "x-forwarded-for"@)->0) ==> forwarded_for_of(
            h,
            client_ip,
        ) == ascii_text(lookup(h, "x-forwarded-for"@)->0) + ", "@ + client_ip,
        !(lookup(h, "x-forwarded-for"@) is Some && is_text(lookup(h, "x-forwarded-for"@)->0)) ==> forwarded_for_of(
            h,
            client_ip,
        ) == client_ip,
        lookup(upstream_headers_of(h, client_ip, authority), "x-proxy"@) == Some(encode_utf8("road7"@)),
        lookup(upstream_headers_of(h, client_ip, authority), "host"@) == match authority {
            Some(a) => Some(encode_utf8(a)),
            None => last_value(h, "host"@),
        },
        other != "x-forwarded-for"@ && other != "host"@ && other != "x-proxy"@ ==> lookup(
            upstream_headers_of(h, client_ip, authority),
            other,
        ) == last_value(h, other),
{
    reveal_strlit("x-forwarded-for");
    reveal_strlit("host");
    reveal_strlit("x-proxy");
    assert("host"@ != "x-forwarded-for"@) by {
        assert("host"@.len() != "x-forwarded-for"@.len());
    }
    assert("x-proxy"@ != "x-forwarded-for"@) by {
        assert("x-proxy"@.len() != "x-forwarded-for"@.len());
    }
    assert("x-proxy"@ != "host"@) by {
        assert("x-proxy"@.len() != "host"@.len());
    }
    let xff = "x-forwarded-for"@;
    let c = copied(h);
    let w = inserted(c, xff, encode_utf8(forwarded_for_of(h, client_ip)));
    law_copied_keeps_last_values(h, other);
    law_copied_keeps_last_values(h, "host"@);
    crate::headers::law_get_after_insert(c, xff, encode_utf8(forwarded_for_of(h, client_ip)), other);
    crate::headers::law_get_after_insert(c, xff, encode_utf8(forwarded_for_of(h, client_ip)), "host"@);
    crate::headers::law_get_after_insert(c, xff, encode_utf8(forwarded_for_of(h, client_ip)), "x-proxy"@);
    let wh = match authority {
        Some(a) => inserted(w, "host"@, encode_utf8(a)),
        None => w,
    };
    match authority {
        Some(a) => {
            crate::headers::law_get_after_insert(w, "host"@, encode_utf8(a), other);
            crate::headers::law_get_after_insert(w, "host"@, encode_utf8(a), xff);
        },
        None => {},
    }
    crate::headers::law_get_after_insert(wh, "x-proxy"@, encode_utf8("road7"@), other);
    crate::headers::law_get_after_insert(wh, "x-proxy"@, encode_utf8("road7"@), xff);
    crate::headers::law_get_after_insert(wh, "x-proxy"@, encode_utf8("road7"@), "host"@);
}

/// The key of the circuit breaker that guards a target URL.
pub fn circuit_breaker_key(target_url: &str) -> (r: String)
    ensures
        r@ == target_url@ + ":circuit_breaker"@,
{
    target_url.to_owned().concat(":circuit_breaker")
}

// ---------------------------------------------------------------------------
// Retrying
// ---------------------------------------------------------------------------

/// The statuses after which the request is tried again: 408, 429, 500, 502,
/// 503 and 504.
pub open spec fn retry_status(status: u16) -> bool {
    status == 408 || status == 429 || status == 500 || status == 502 || status == 503 || status
        == 504
}

/// Whether a response with this status is tried again.
pub fn is_retry_status(status: u16) -> (r: bool)
    ensures
        r == retry_status(status),
{
    status == 408 || status == 429 || status == 500 || status == 502 || status == 503 || status
        == 504
}

/// What came of one attempt to reach the target.
#[derive(Debug, Clone)]
pub enum AttemptOutcome {
    /// The target answered with this status.
    Answered(u16),
    /// The request failed, with this message.
    Failed(String),
    /// The attempt timed out; `deadline_passed` tells whether the time
    /// allowed for the whole request has passed too.
    TimedOut { deadline_passed: bool },
}

/// What the loop does after an attempt.
#[derive(Debug, Clone)]
pub enum RetryDecision {
    /// Try again; wait for the strategy's delay first when `wait` holds.
    Retry { wait: bool },
    /// Hand the target's answer on.
    Deliver,
    /// Answer with this error.
    GiveUp(ProxyError),
}

/// The attempts made so far for one request, and how many may be made.
pub struct RetryLoop {
    retries: usize,
    max_attempts: usize,
}

/// What the breaker records after an attempt.
pub enum BreakerEffect {
    Nothing,
    Success,
    Failure,
}

/// The attempts counted after an outcome, the loop's decision, and what the
/// breaker records.
pub open spec fn decide(retries: nat, max_attempts: nat, outcome: AttemptOutcome) -> (nat, RetryDecision, BreakerEffect) {
    match outcome {
        AttemptOutcome::Answered(status) => if retry_status(status) {
            (retries + 1, RetryDecision::Retry { wait: retries + 1 < max_attempts }, BreakerEffect::Nothing)
        } else {
            (retries, RetryDecision::Deliver, BreakerEffect::Success)
        },
        AttemptOutcome::Failed(m) => if retries + 1 < max_attempts {
            (retries + 1, RetryDecision::Retry { wait: true }, BreakerEffect::Nothing)
        } else {
            (retries + 1, RetryDecision::GiveUp(ProxyError::InternalServerError(m)), BreakerEffect::Failure)
        },
        AttemptOutcome::TimedOut { deadline_passed } => if deadline_passed {
            (retries, RetryDecision::GiveUp(ProxyError::Timeout), BreakerEffect::Failure)
        } else if retries + 1 < max_attempts {
            (retries + 1, RetryDecision::Retry { wait: true }, BreakerEffect::Nothing)
        } else {
            (retries + 1, RetryDecision::GiveUp(ProxyError::Timeout), BreakerEffect::Failure)
        },
    }
}

/// The breaker after an effect at time `now`: a success or a failure is
/// recorded.
pub open spec fn breaker_after(b: CircuitBreaker, effect: BreakerEffect, now: u64) -> CircuitBreaker {
    match effect {
        BreakerEffect::Nothing => b,
        BreakerEffect::Success => b.after_success(),
        BreakerEffect::Failure => b.after_failure(now),
    }
}

impl RetryLoop {
    /// The attempts made so far.
    pub closed spec fn spec_retries(self) -> nat {
        self.retries as nat
    }

    /// How many attempts may be made.
    pub closed spec fn spec_max_attempts(self) -> nat {
        self.max_attempts as nat
    }

    /// No attempt made yet, `max_attempts` allowed.
    pub fn new(max_attempts: usize) -> (l: RetryLoop)
        ensures
            l.spec_retries() == 0,
            l.spec_max_attempts() == max_attempts,
    {
        RetryLoop { retries: 0, max_attempts }
    }

    /// Whether another attempt may be made.
    pub fn should_attempt(&self) -> (r: bool)
        ensures
            r == (self.spec_retries() < self.spec_max_attempts()),
    {
        self.retries < self.max_attempts
    }

    /// Takes the outcome of an attempt: counts it when it calls for another
    /// try, records a success or a final failure on the breaker at time
    /// `now`, and says what to do next.
    pub fn on_outcome(&mut self, outcome: AttemptOutcome, breaker: &mut CircuitBreaker, now: u64) -> (d: RetryDecision)
        requires
            old(self).spec_retries() < old(self).spec_max_attempts(),
            old(breaker).spec_failure_count() < usize::MAX,
        ensures
            ({
                let (n, decision, effect) = decide(old(self).spec_retries(), old(self).spec_max_attempts(), outcome);
                &&& final(self).spec_retries() == n
                &&& d == decision
                &&& *final(breaker) == breaker_after(*old(breaker), effect, now)
            }),
            final(self).spec_max_attempts() == old(self).spec_max_attempts(),
            final(self).spec_retries() <= final(self).spec_max_attempts(),
    {
        match outcome {
            AttemptOutcome::Answered(status) => {
                if is_retry_status(status) {
                    self.retries = self.retries + 1;
                    RetryDecision::Retry { wait: self.retries < self.max_attempts }
                } else {
                    breaker.record_success();
                    RetryDecision::Deliver
                }
            },
            AttemptOutcome::Failed(m) => {
                self.retries = self.retries + 1;
                if self.retries < self.max_attempts {
                    RetryDecision::Retry { wait: true }
                } else {
                    breaker.record_failure_at(now);
                    RetryDecision::GiveUp(ProxyError::InternalServerError(m))
                }
            },
            AttemptOutcome::TimedOut { deadline_passed } => {
                if deadline_passed {
                    breaker.record_failure_at(now);
                    RetryDecision::GiveUp(ProxyError::Timeout)
                } else {
                    self.retries = self.retries + 1;
                    if self.retries < self.max_attempts {
                        RetryDecision::Retry { wait: true }
                    } else {
                        breaker.record_failure_at(now);
                        RetryDecision::GiveUp(ProxyError::Timeout)
                    }
                }
            },
        }
    }

    /// The answer once every attempt has been used: the failure is recorded
    /// at time `now`, a half-open breaker opens again, and the request ends
    /// as unavailable.
    pub fn exhausted(breaker: &mut CircuitBreaker, now: u64) -> (e: ProxyError)
        requires
            old(breaker).spec_failure_count() < usize::MAX,
        ensures
            match e {
                ProxyError::ServiceUnavailable(m) => m@ == "Maximum retries exceeded"@,
                _ => false,
            },
            *final(breaker) == if old(breaker).after_failure(now).spec_state() == CircuitState::HalfOpen {
                old(breaker).after_failure(now).after_open(now)
            } else {
                old(breaker).after_failure(now)
            },
    {
        breaker.record_failure_at(now);
        if breaker.get_state() == CircuitState::HalfOpen {
            breaker.transition_to_open_at(now);
        }
        ProxyError::ServiceUnavailable("Maximum retries exceeded".to_owned())
    }
}

/// The attempts that a run of the loop makes when the attempts come out as
/// `outcomes`, starting with `retries` counted.
pub open spec fn attempts_made(retries: nat, max_attempts: nat, outcomes: Seq<AttemptOutcome>) -> nat
    decreases outcomes.len(),
{
    if retries >= max_attempts || outcomes.len() == 0 {
        0
    } else {
        let (n, decision, _) = decide(retries, max_attempts, outcomes[0]);
        if decision is Retry {
            1 + attempts_made(n, max_attempts, outcomes.drop_first())
        } else {
            1
        }
    }
}

/// However the attempts come out, the loop makes at most `max_attempts` of
/// them.
pub proof fn law_attempts_bounded(max_attempts: nat, outcomes: Seq<AttemptOutcome>)
    ensures
        attempts_made(0, max_attempts, outcomes) <= max_attempts,
{
    lemma_attempts_bounded(0, max_attempts, outcomes);
}

proof fn lemma_attempts_bounded(retries: nat, max_attempts: nat, outcomes: Seq<AttemptOutcome>)
    ensures
        attempts_made(retries, max_attempts, outcomes) + retries <= if retries <= max_attempts {
            max_attempts
        } else {
            retries
        },
    decreases outcomes.len(),
{
    if retries < max_attempts && outcomes.len() > 0 {
        lemma_attempts_bounded(decide(retries, max_attempts, outcomes[0]).0, max_attempts, outcomes.drop_first());
    }
}

/// An answer with a retry status is never handed on, and a request is tried
/// again only while attempts are left.
pub proof fn law_retry_statuses_not_delivered(retries: nat, max_attempts: nat, outcome: AttemptOutcome)
    ensures
        outcome matches AttemptOutcome::Answered(s) && retry_status(s) ==> !(decide(
            retries,
            max_attempts,
            outcome,
        ).1 is Deliver),
        decide(retries, max_attempts, outcome).1 matches RetryDecision::Retry { wait } && wait
            ==> decide(retries, max_attempts, outcome).0 < max_attempts,
{
}

/// The breaker records something only when the loop ends: nothing while it
/// retries, a success when it hands an answer on, and a failure when it
/// gives up; so a retry leaves the breaker as it was.
pub proof fn law_breaker_touched_only_at_the_end(
    retries: nat,
    max_attempts: nat,
    outcome: AttemptOutcome,
    b: CircuitBreaker,
    now: u64,
)
    ensures
        decide(retries, max_attempts, outcome).1 is Retry ==> breaker_after(
            b,
            decide(retries, max_attempts, outcome).2,
            now,
        ) == b,
        decide(retries, max_attempts, outcome).1 is Deliver ==> breaker_after(
            b,
            decide(retries, max_attempts, outcome).2,
            now,
        ) == b.after_success(),
        decide(retries, max_attempts, outcome).1 is GiveUp ==> breaker_after(
            b,
            decide(retries, max_attempts, outcome).2,
            now,
        ) == b.after_failure(now),
{
}

/// A failed attempt, or one that timed out before the request's deadline,
/// is tried again after a wait while attempts are left, and counts as one
/// attempt; the loop gives up on it only once the attempts are used up, with
/// the failure's own message or as a timeout.
pub proof fn law_failures_retried_while_attempts_left(retries: nat, max_attempts: nat, m: String)
    ensures
        retries + 1 < max_attempts ==> decide(retries, max_attempts, AttemptOutcome::Failed(m))
            == (retries + 1, RetryDecision::Retry { wait: true }, BreakerEffect::Nothing),
        retries + 1 >= max_attempts ==> decide(retries, max_attempts, AttemptOutcome::Failed(m))
            == (retries + 1, RetryDecision::GiveUp(ProxyError::InternalServerError(m)), BreakerEffect::Failure),
        retries + 1 < max_attempts ==> decide(
            retries,
            max_attempts,
            AttemptOutcome::TimedOut { deadline_passed: false },
        ) == (retries + 1, RetryDecision::Retry { wait: true }, BreakerEffect::Nothing),
        retries + 1 >= max_attempts ==> decide(
            retries,
            max_attempts,
            AttemptOutcome::TimedOut { deadline_passed: false },
        ) == (retries + 1, RetryDecision::GiveUp(ProxyError::Timeout), BreakerEffect::Failure),
        decide(retries, max_attempts, AttemptOutcome::TimedOut { deadline_passed: true }) == (
        retries,
        RetryDecision::GiveUp(ProxyError::Timeout),
        BreakerEffect::Failure,
        ),
{
}

/// An answer with a status that is not retried is handed on at once and
/// recorded as a success; one with a retried status counts as an attempt and
/// is tried again, after a wait only while attempts are left.
pub proof fn law_answers(retries: nat, max_attempts: nat, status: u16)
    ensures
        !retry_status(status) ==> decide(retries, max_attempts, AttemptOutcome::Answered(status)) == (
        retries,
        RetryDecision::Deliver,
        BreakerEffect::Success,
        ),
        retry_status(status) ==> decide(retries, max_attempts, AttemptOutcome::Answered(status)) == (
        retries + 1,
        RetryDecision::Retry { wait: retries + 1 < max_attempts },
        BreakerEffect::Nothing,
        ),
        retry_status(status) <==> (status == 408 || status == 429 || status == 500 || status == 502
            || status == 503 || status == 504),
{
}

// ---------------------------------------------------------------------------
// The headers of answers
// ---------------------------------------------------------------------------

/// The CORS configuration that applies: the target's, else the default.
pub open spec fn chosen_cors(target: Option<CorsConfig>, default: Option<CorsConfig>) -> Option<CorsConfig> {
    match target {
        Some(c) => Some(c),
        None => default,
    }
}

/// A header set to a text when there is one.
pub open spec fn set_if(h: Seq<Field>, name: Seq<char>, v: Option<String>) -> Seq<Field> {
    match v {
        Some(s) => inserted(h, name, encode_utf8(s@)),
        None => h,
    }
}

/// The fields of a fresh answer after the CORS headers of an enabled
/// configuration are set.
pub open spec fn with_cors_of(h: Seq<Field>, c: Option<CorsConfig>) -> Seq<Field> {
    match c {
        Some(c) => if c.enabled {
            set_if(
                set_if(set_if(h, "access-control-allow-origin"@, c.allow_origin), "access-control-allow-headers"@, c.allow_headers),
                "access-control-allow-methods"@,
                c.allow_methods,
            )
        } else {
            h
        },
        None => h,
    }
}

/// What a lookup of `name` gives after setting it to `v` when there is one.
proof fn lemma_set_if_lookup(h: Seq<Field>, name: Seq<char>, v: Option<String>, other: Seq<char>)
    ensures
        lookup(set_if(h, name, v), name) == match v {
            Some(s) => Some(encode_utf8(s@)),
            None => lookup(h, name),
        },
        other != name ==> lookup(set_if(h, name, v), other) == lookup(h, other),
{
    match v {
        Some(s) => crate::headers::law_get_after_insert(h, name, encode_utf8(s@), other),
        None => {},
    }
}

/// An enabled CORS configuration sets each of its three headers that it
/// gives a value to that value, keeps the request's own value of one it
/// gives none, and leaves every other header as it was; a disabled or absent
/// configuration changes nothing. The target's configuration, when it has
/// one, is the one that applies.
pub proof fn law_cors_headers(h: Seq<Field>, c: CorsConfig, other: Seq<char>, target: Option<CorsConfig>, default: Option<CorsConfig>)
    ensures
        c.enabled ==> lookup(with_cors_of(h, Some(c)), "access-control-allow-origin"@) == match c.allow_origin {
            Some(v) => Some(encode_utf8(v@)),
            None => lookup(h, "access-control-allow-origin"@),
        },
        c.enabled ==> lookup(with_cors_of(h, Some(c)), "access-control-allow-headers"@) == match c.allow_headers {
            Some(v) => Some(encode_utf8(v@)),
            None => lookup(h, "access-control-allow-headers"@),
        },
        c.enabled ==> lookup(with_cors_of(h, Some(c)), "access-control-allow-methods"@) == match c.allow_methods {
            Some(v) => Some(encode_utf8(v@)),
            None => lookup(h, "access-control-allow-methods"@),
        },
        other != "access-control-allow-origin"@ && other != "access-control-allow-headers"@ && other
            != "access-control-allow-methods"@ ==> lookup(with_cors_of(h, Some(c)), other) == lookup(h, other),
        !c.enabled ==> with_cors_of(h, Some(c)) == h,
        with_cors_of(h, None) == h,
        target is Some ==> chosen_cors(target, default) == target,
        target is None ==> chosen_cors(target, default) == default,
{
    let o = "access-control-allow-origin"@;
    let hd = "access-control-allow-headers"@;
    let m = "access-control-allow-methods"@;
    reveal_strlit("access-control-allow-origin");
    reveal_strlit("access-control-allow-headers");
    reveal_strlit("access-control-allow-methods");
    assert(o != hd) by {
        assert("access-control-allow-origin"@[21] != "access-control-allow-headers"@[21]);
    }
    assert(o != m) by {
        assert("access-control-allow-origin"@[21] != "access-control-allow-methods"@[21]);
    }
    assert(hd != m) by {
        assert("access-control-allow-headers"@[21] != "access-control-allow-methods"@[21]);
    }
    let h1 = set_if(h, o, c.allow_origin);
    let h2 = set_if(h1, hd, c.allow_headers);
    lemma_set_if_lookup(h, o, c.allow_origin, hd);
    lemma_set_if_lookup(h, o, c.allow_origin, m);
    lemma_set_if_lookup(h, o, c.allow_origin, other);
    lemma_set_if_lookup(h1, hd, c.allow_headers, o);
    lemma_set_if_lookup(h1, hd, c.allow_headers, m);
    lemma_set_if_lookup(h1, hd, c.allow_headers, other);
    lemma_set_if_lookup(h2, m, c.allow_methods, o);
    lemma_set_if_lookup(h2, m, c.allow_methods, hd);
    lemma_set_if_lookup(h2, m, c.allow_methods, other);
}

fn set_text(h: &mut Headers, name: &str, value: &Option<String>)
    ensures
        final(h)@ == set_if(old(h)@, name@, *value),
{
    match value {
        Some(s) => h.insert(name, text_bytes(s.as_str())),
        None => {},
    }
}

/// Sets the CORS headers of the configuration that applies, the target's or
/// else the default, when it is enabled.
pub fn apply_cors_headers(headers: &mut Headers, target: &Option<CorsConfig>, default: &Option<CorsConfig>)
    requires
        chosen_cors(*target, *default) matches Some(c) ==> cors_config_ok(c),
    ensures
        final(headers)@ == with_cors_of(old(headers)@, chosen_cors(*target, *default)),
{
    let chosen = match target {
        Some(c) => Some(c),
        None => match default {
            Some(d) => Some(d),
            None => None,
        },
    };
    match chosen {
        Some(c) => {
            if c.enabled {
                set_text(headers, "access-control-allow-origin", &c.allow_origin);
                set_text(headers, "access-control-allow-headers", &c.allow_headers);
                set_text(headers, "access-control-allow-methods", &c.allow_methods);
            }
        },
        None => {},
    }
}

/// The fields of an answer from the cache: the stored fields, the stored
/// CORS values, the entity tag and the last-modified time.
pub open spec fn cached_headers_of(e: CacheEntry) -> Seq<Field> {
    let h = e.headers@;
    let with_cors = match e.cors_headers {
        Some(c) => inserted(
            inserted(
                inserted(h, "access-control-allow-origin"@, encode_utf8(c.allow_origin@)),
                "access-control-allow-headers"@,
                encode_utf8(c.allow_headers@),
            ),
            "access-control-allow-methods"@,
            encode_utf8(c.allow_methods@),
        ),
        None => h,
    };
    set_if(set_if(with_cors, "etag"@, e.etag), "last-modified"@, e.last_modified)
}

/// Whether every value that an answer from the cache sets may stand in a
/// header.
pub open spec fn cached_values_ok(e: CacheEntry) -> bool {
    &&& (e.cors_headers matches Some(c) ==> value_text_ok(c.allow_origin@) && value_text_ok(
        c.allow_headers@,
    ) && value_text_ok(c.allow_methods@))
    &&& (e.etag matches Some(t) ==> value_text_ok(t@))
    &&& (e.last_modified matches Some(t) ==> value_text_ok(t@))
}

/// The header fields of an answer from the cache.
pub fn cached_response_headers(entry: &CacheEntry) -> (r: Headers)
    requires
        cached_values_ok(*entry),
    ensures
        r@ == cached_headers_of(*entry),
{
    let mut h = entry.headers.duplicate();
    match &entry.cors_headers {
        Some(c) => {
            h.insert("access-control-allow-origin", text_bytes(c.allow_origin.as_str()));
            h.insert("access-control-allow-headers", text_bytes(c.allow_headers.as_str()));
            h.insert("access-control-allow-methods", text_bytes(c.allow_methods.as_str()));
        },
        None => {},
    }
    set_text(&mut h, "etag", &entry.etag);
    set_text(&mut h, "last-modified", &entry.last_modified);
    h
}

/// The request's fields with the conditions that let the target answer "not
/// modified" for a cached response.
pub open spec fn conditional_headers_of(h: Seq<Field>, e: CacheEntry) -> Seq<Field> {
    set_if(set_if(h, "if-none-match"@, e.etag), "if-modified-since"@, e.last_modified)
}

/// Sets If-None-Match and If-Modified-Since from a cached response.
pub fn add_conditional_headers(headers: &mut Headers, entry: &CacheEntry)
    requires
        entry.etag matches Some(t) ==> value_text_ok(t@),
        entry.last_modified matches Some(t) ==> value_text_ok(t@),
    ensures
        final(headers)@ == conditional_headers_of(old(headers)@, *entry),
{
    set_text(headers, "if-none-match", &entry.etag);
    set_text(headers, "if-modified-since", &entry.last_modified);
}

// ---------------------------------------------------------------------------
// The cache of a target
// ---------------------------------------------------------------------------

/// The key under which a request to `url` is cached, for responses that vary
/// on `vary`.
pub open spec fn cache_key_of(url: Seq<char>, uri: Seq<char>, h: Seq<Field>, vary: Option<Seq<Seq<char>>>) -> Seq<char> {
    hex_u64(spec_hash_str(key_material(url, uri, h, vary)))
}

/// What the cache holds for a request.
pub enum CacheLookup {
    /// A live response stored under the key that its own varying headers
    /// give: the answer.
    Hit(CacheEntry),
    /// A live response stored under the plain key, with none under the
    /// varying key: its validators may still serve a conditional request.
    Stale(CacheEntry),
    /// Nothing live under the plain key.
    Miss,
}

/// The varying headers of an entry.
pub open spec fn vary_of(e: EntryView) -> Option<Seq<Seq<char>>> {
    e.vary_headers
}

/// Looks a request up at time `now`: first under the plain key; when a live
/// entry is there, under the key that its varying headers give. Each lookup
/// drops an expired entry under its key.
pub fn lookup_cached(cache: &mut Cache, target_url: &str, uri: &str, headers: &Headers, now: u64) -> (r: CacheLookup)
    ensures
        ({
            let k0 = cache_key_of(target_url@, uri@, headers@, None);
            let m1 = after_lookup(old(cache)@, k0, now);
            match lookup_at(old(cache)@, k0, now) {
                None => r is Miss && final(cache)@ == m1,
                Some(first) => {
                    let k1 = cache_key_of(target_url@, uri@, headers@, vary_of(first));
                    &&& final(cache)@ == after_lookup(m1, k1, now)
                    &&& match lookup_at(m1, k1, now) {
                        Some(e) => r matches CacheLookup::Hit(x) && x@ == e,
                        None => r matches CacheLookup::Stale(x) && x@ == first,
                    }
                },
            }
        }),
        final(cache).spec_ttl() == old(cache).spec_ttl(),
        final(cache).spec_serialize() == old(cache).spec_serialize(),
        final(cache).spec_max_size() == old(cache).spec_max_size(),
{
    let key = create_cache_key(target_url, uri, headers, None);
    match cache.get_at(key.as_str(), now) {
        None => CacheLookup::Miss,
        Some(first) => {
            let varied = create_cache_key(target_url, uri, headers, first.vary_headers.as_ref());
            proof {
                assert(vary_of(first@) == match first.vary_headers {
                    Some(v) => Some(crate::cache::texts_of(v@)),
                    None => None::<Seq<Seq<char>>>,
                });
            }
            match cache.get_at(varied.as_str(), now) {
                Some(e) => CacheLookup::Hit(e),
                None => CacheLookup::Stale(first),
            }
        },
    }
}

/// Stores a target's response at time `now` under the key that the request
/// and the response's varying headers give.
pub fn store_response(
    cache: &mut Cache,
    status: u16,
    response_headers: Headers,
    body: Vec<u8>,
    cors_config: &Option<CorsConfig>,
    target_url: &str,
    uri: &str,
    request_headers: &Headers,
    now: u64,
)
    requires
        lookup(response_headers@, "etag"@) matches Some(v) ==> is_text(v),
        lookup(response_headers@, "last-modified"@) matches Some(v) ==> is_text(v),
        *cors_config matches Some(c) ==> cors_config_ok(c),
    ensures
        ({
            let e = entry_from(status, response_headers@, body@, *cors_config, now);
            put_result(
                old(cache)@,
                old(cache).spec_max_size() as nat,
                cache_key_of(target_url@, uri@, request_headers@, vary_of(e)),
                put_entry(e, old(cache).spec_ttl(), now),
                final(cache)@,
            )
        }),
        final(cache).spec_ttl() == old(cache).spec_ttl(),
        final(cache).spec_serialize() == old(cache).spec_serialize(),
        final(cache).spec_max_size() == old(cache).spec_max_size(),
{
    let entry = CacheEntry::from_response(status, response_headers, body, cors_config, now);
    let key = create_cache_key(target_url, uri, request_headers, entry.vary_headers.as_ref());
    proof {
        assert(vary_of(entry@) == match entry.vary_headers {
            Some(v) => Some(crate::cache::texts_of(v@)),
            None => None::<Seq<Seq<char>>>,
        });
    }
    cache.put_at(key, entry, now);
}

/// A response that varies on no header, once stored in a cache that may
/// hold anything, is what a lookup of the same request finds until it
/// expires: both keys of the lookup lead to it, whatever entry a full cache
/// gave up for it.
pub proof fn law_lookup_after_store(
    m: Map<Seq<char>, EntryView>,
    m2: Map<Seq<char>, EntryView>,
    max_size: nat,
    e: EntryView,
    ttl: crate::time::Duration,
    url: Seq<char>,
    uri: Seq<char>,
    h: Seq<Field>,
    now: u64,
    t: u64,
)
    requires
        vary_of(e) is None,
        t < crate::cache::expiry(now, ttl),
        max_size > 0,
        within_size(m, max_size),
        put_result(m, max_size, cache_key_of(url, uri, h, vary_of(e)), put_entry(e, ttl, now), m2),
    ensures
        ({
            let stored = put_entry(e, ttl, now);
            let k0 = cache_key_of(url, uri, h, None);
            &&& lookup_at(m2, k0, t) == Some(stored)
            &&& lookup_at(after_lookup(m2, k0, t), cache_key_of(url, uri, h, vary_of(stored)), t) == Some(stored)
        }),
{
    law_put_keeps_size(m, max_size, cache_key_of(url, uri, h, vary_of(e)), put_entry(e, ttl, now), m2);
}

} // verus!
