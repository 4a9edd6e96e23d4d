//! The response cache: entries built from responses, kept with an expiry
//! time, looked up by a key derived from the target and the request.
use vstd::prelude::*;
use crate::headers::{
    Headers,
    Field,
    lookup,
    is_text,
    ascii_text,
    value_to_text,
    value_text_ok,
    parse_header_name,
    spec_parse_header_name,
};
use crate::text::{chars_of, string_from_chars};
use crate::time::{Duration, clock_millis};
use dashmap::DashMap;
use crate::text::{hash_str, spec_hash_str};

verus! {

// ---------------------------------------------------------------------------
// Configuration
// ---------------------------------------------------------------------------

/// The CORS headers that a target's responses carry.
#[derive(Debug, Clone)]
pub struct CorsConfig {
    pub enabled: bool,
    pub allow_origin: Option<String>,
    pub allow_headers: Option<String>,
    pub allow_methods: Option<String>,
}

/// How a target's responses are cached.
#[derive(Debug, Clone, Copy, PartialEq, Eq, Structural)]
pub struct CacheConfig {
    pub ttl_seconds: u64,
    pub max_size: usize,
    pub serialize: bool,
    pub cleanup_interval_seconds: u64,
}

/// Seconds between two sweeps of expired entries when the configuration
/// names none.
pub fn default_cleanup_interval() -> (r: u64)
    ensures
        r == 60,
{
    60
}

/// Whether cached bodies are stored as JSON when the configuration does not
/// say.
pub fn default_serialize() -> (r: bool)
    ensures
        r == false,
{
    false
}

// ---------------------------------------------------------------------------
// Entries
// ---------------------------------------------------------------------------

/// The CORS header values stored with a cached response.
#[derive(Debug, Clone)]
pub struct CorsHeaders {
    pub allow_origin: String,
    pub allow_headers: String,
    pub allow_methods: String,
}

/// A cached response. Times are milliseconds on the proxy's clock.
#[derive(Debug)]
pub struct CacheEntry {
    pub response: Vec<u8>,
    pub headers: Headers,
    pub status: u16,
    pub expires_at: u64,
    pub cors_headers: Option<CorsHeaders>,
    pub etag: Option<String>,
    pub last_modified: Option<String>,
    pub vary_headers: Option<Vec<String>>,
}

/// What a cached response holds, as values.
#[verifier::ext_equal]
pub struct EntryView {
    pub response: Seq<u8>,
    pub headers: Seq<Field>,
    pub status: u16,
    pub expires_at: u64,
    pub cors_headers: Option<(Seq<char>, Seq<char>, Seq<char>)>,
    pub etag: Option<Seq<char>>,
    pub last_modified: Option<Seq<char>>,
    pub vary_headers: Option<Seq<Seq<char>>>,
}

/// The texts of a list of strings.
pub open spec fn texts_of(v: Seq<String>) -> Seq<Seq<char>> {
    Seq::new(v.len(), |i: int| v[i]@)
}

/// The text of an optional string.
pub open spec fn opt_text(o: Option<String>) -> Option<Seq<char>> {
    match o {
        Some(s) => Some(s@),
        None => None,
    }
}

/// The three values of CORS headers.
pub open spec fn cors_view(c: CorsHeaders) -> (Seq<char>, Seq<char>, Seq<char>) {
    (c.allow_origin@, c.allow_headers@, c.allow_methods@)
}

impl View for CacheEntry {
    type V = EntryView;

    open spec fn view(&self) -> EntryView {
        EntryView {
            response: self.response@,
            headers: self.headers@,
            status: self.status,
            expires_at: self.expires_at,
            cors_headers: match self.cors_headers {
                Some(c) => Some(cors_view(c)),
                None => None,
            },
            etag: opt_text(self.etag),
            last_modified: opt_text(self.last_modified),
            vary_headers: match self.vary_headers {
                Some(v) => Some(texts_of(v@)),
                None => None,
            },
        }
    }
}

/// The text of a string, or `d` for none.
pub open spec fn or_default(o: Option<String>, d: Seq<char>) -> Seq<char> {
    match o {
        Some(s) => s@,
        None => d,
    }
}

/// The methods that CORS allows when the configuration names none.
pub open spec fn default_methods() -> Seq<char> {
    "GET,POST,PUT,DELETE,OPTIONS,PATCH"@
}

/// The CORS values that a configuration gives: each value it names, else
/// its default.
pub open spec fn cors_values(c: CorsConfig) -> (Seq<char>, Seq<char>, Seq<char>) {
    (
        or_default(c.allow_origin, "*"@),
        or_default(c.allow_headers, "*"@),
        or_default(c.allow_methods, default_methods()),
    )
}

/// Whether each value a CORS configuration names may stand in a header.
pub open spec fn cors_config_ok(c: CorsConfig) -> bool {
    &&& (c.allow_origin matches Some(s) ==> value_text_ok(s@))
    &&& (c.allow_headers matches Some(s) ==> value_text_ok(s@))
    &&& (c.allow_methods matches Some(s) ==> value_text_ok(s@))
}

/// The digits of hexadecimal numbers, in lower case.
pub open spec fn hex_digits() -> Seq<char> {
    "0123456789abcdef"@
}

/// A byte as two lower-case hexadecimal digits.
pub open spec fn hex_byte(b: u8) -> Seq<char> {
    seq![hex_digits()[b as int / 16], hex_digits()[b as int % 16]]
}

/// Bytes as lower-case hexadecimal, two digits per byte.
pub open spec fn hex_bytes(bs: Seq<u8>) -> Seq<char>
    decreases bs.len(),
{
    if bs.len() == 0 {
        Seq::empty()
    } else {
        hex_bytes(bs.drop_last()) + hex_byte(bs.last())
    }
}

/// A number in lower-case hexadecimal, without leading zeros.
pub open spec fn hex_u64(n: u64) -> Seq<char>
    decreases n,
{
    if n < 16 {
        seq![hex_digits()[n as int]]
    } else {
        hex_u64(n / 16) + seq![hex_digits()[n as int % 16]]
    }
}

/// Whether `c` is white space in the sense of `str::trim`, among the
/// characters that a header value read as text may hold.
pub open spec fn is_space(c: char) -> bool {
    c == ' ' || c == '\t' || c == '\n' || c == '\r' || c == '\x0B' || c == '\x0C'
}

/// `s` without leading white space.
pub open spec fn trim_start(s: Seq<char>) -> Seq<char>
    decreases s.len(),
{
    if s.len() > 0 && is_space(s[0]) {
        trim_start(s.drop_first())
    } else {
        s
    }
}

/// `s` without trailing white space.
pub open spec fn trim_end(s: Seq<char>) -> Seq<char>
    decreases s.len(),
{
    if s.len() > 0 && is_space(s.last()) {
        trim_end(s.drop_last())
    } else {
        s
    }
}

/// `s` without leading and trailing white space.
pub open spec fn trim(s: Seq<char>) -> Seq<char> {
    trim_end(trim_start(s))
}

/// The pieces of `s` between commas; a text without commas is one piece.
pub open spec fn split_commas(s: Seq<char>) -> Seq<Seq<char>>
    decreases s.len(),
{
    if s.len() == 0 {
        seq![Seq::empty()]
    } else {
        let init = split_commas(s.drop_last());
        if s.last() == ',' {
            init.push(Seq::empty())
        } else {
            init.update(init.len() - 1, init.last().push(s.last()))
        }
    }
}

/// The MD5 digest of a byte string.
pub uninterp spec fn spec_md5(data: Seq<u8>) -> Seq<u8>;

/// The MD5 digest of `data`.
///
/// This calls `md5::compute`, whose digest is an array of 16 bytes.
#[verifier::external_body]
fn md5_digest(data: &[u8]) -> (r: Vec<u8>)
    ensures
        r@ == spec_md5(data@),
        r@.len() == 16,
{
    md5::compute(data).0.to_vec()
}

/// The entity tag of a response: its ETag header, else the quoted MD5
/// digest of its body in hexadecimal.
pub open spec fn etag_for(h: Seq<Field>, body: Seq<u8>) -> Seq<char> {
    match lookup(h, "etag"@) {
        Some(v) => ascii_text(v),
        None => seq!['"'] + hex_bytes(spec_md5(body)) + seq!['"'],
    }
}

/// The header names that a response varies on: its Vary header split at
/// commas and trimmed, when it reads as text.
pub open spec fn vary_for(h: Seq<Field>) -> Option<Seq<Seq<char>>> {
    match lookup(h, "vary"@) {
        Some(v) => if is_text(v) {
            Some(split_commas(ascii_text(v)).map_values(|p: Seq<char>| trim(p)))
        } else {
            None
        },
        None => None,
    }
}

/// The entry that a response becomes at time `now`.
pub open spec fn entry_from(
    status: u16,
    h: Seq<Field>,
    body: Seq<u8>,
    cors: Option<CorsConfig>,
    now: u64,
) -> EntryView {
    EntryView {
        response: body,
        headers: h,
        status,
        expires_at: now,
        cors_headers: match cors {
            Some(c) => Some(cors_values(c)),
            None => None,
        },
        etag: Some(etag_for(h, body)),
        last_modified: match lookup(h, "last-modified"@) {
            Some(v) => Some(ascii_text(v)),
            None => None,
        },
        vary_headers: vary_for(h),
    }
}

fn owned(s: &str) -> (r: String)
    ensures
        r@ == s@,
{
    s.to_owned()
}

/// A response becomes an entry that keeps its body, header fields and
/// status; its entity tag is the response's ETag when it has one, else a
/// quoted text; its last-modified time is the response's Last-Modified; and
/// the CORS values are those the configuration names, with "*" for the
/// origin and headers and the usual methods when it names none.
pub proof fn law_entry_from(status: u16, h: Seq<Field>, body: Seq<u8>, cors: Option<CorsConfig>, now: u64, c: CorsConfig)
    ensures
        entry_from(status, h, body, cors, now).response == body,
        entry_from(status, h, body, cors, now).headers == h,
        entry_from(status, h, body, cors, now).status == status,
        lookup(h, "etag"@) is Some ==> entry_from(status, h, body, cors, now).etag == Some(
            ascii_text(lookup(h, "etag"@)->0),
        ),
        lookup(h, "etag"@) is None ==> (entry_from(status, h, body, cors, now).etag matches Some(t) && t.len()
            >= 2 && t[0] == '"' && t.last() == '"'),
        lookup(h, "last-modified"@) is Some ==> entry_from(status, h, body, cors, now).last_modified == Some(
            ascii_text(lookup(h, "last-modified"@)->0),
        ),
        lookup(h, "last-modified"@) is None ==> entry_from(status, h, body, cors, now).last_modified is None,
        cors is None ==> entry_from(status, h, body, cors, now).cors_headers is None,
        cors_values(c).0 == match c.allow_origin {
            Some(v) => v@,
            None => "*"@,
        },
        cors_values(c).1 == match c.allow_headers {
            Some(v) => v@,
            None => "*"@,
        },
        cors_values(c).2 == match c.allow_methods {
            Some(v) => v@,
            None => "GET,POST,PUT,DELETE,OPTIONS,PATCH"@,
        },
{
}

/// Storing an entry changes nothing but its expiry time.
pub proof fn law_put_entry_keeps_response(e: EntryView, ttl: Duration, now: u64)
    ensures
        put_entry(e, ttl, now).response == e.response,
        put_entry(e, ttl, now).headers == e.headers,
        put_entry(e, ttl, now).status == e.status,
        put_entry(e, ttl, now).etag == e.etag,
        put_entry(e, ttl, now).last_modified == e.last_modified,
        put_entry(e, ttl, now).cors_headers == e.cors_headers,
        put_entry(e, ttl, now).vary_headers == e.vary_headers,
{
}

/// Bytes in lower-case hexadecimal.
fn hex_of_bytes(bs: &[u8]) -> (r: Vec<char>)
    ensures
        r@ == hex_bytes(bs@),
{
    let digits = chars_of("0123456789abcdef");
    proof {
        reveal_strlit("0123456789abcdef");
    }
    let mut out: Vec<char> = Vec::new();
    let mut i: usize = 0;
    while i < bs.len()
        invariant
            digits@ == hex_digits(),
            digits@.len() == 16,
            i <= bs@.len(),
            out@ == hex_bytes(bs@.take(i as int)),
        decreases bs@.len() - i,
    {
        proof {
            assert(bs@.take(i + 1).drop_last() =~= bs@.take(i as int));
        }
        let b = bs[i];
        out.push(digits[(b / 16) as usize]);
        out.push(digits[(b % 16) as usize]);
        i = i + 1;
        proof {
            assert(out@ =~= hex_bytes(bs@.take(i as int)));
        }
    }
    proof {
        assert(bs@.take(bs@.len() as int) =~= bs@);
    }
    out
}

/// A number in lower-case hexadecimal.
fn hex_of_u64(n: u64) -> (r: Vec<char>)
    ensures
        r@ == hex_u64(n),
    decreases n,
{
    let digits = chars_of("0123456789abcdef");
    proof {
        reveal_strlit("0123456789abcdef");
    }
    if n < 16 {
        let mut v: Vec<char> = Vec::new();
        v.push(digits[n as usize]);
        proof {
            assert(v@ =~= hex_u64(n));
        }
        v
    } else {
        let mut v = hex_of_u64(n / 16);
        v.push(digits[(n % 16) as usize]);
        v
    }
}

/// `s` without leading and trailing white space.
fn trimmed(s: &[char]) -> (r: String)
    ensures
        r@ == trim(s@),
{
    let mut a: usize = 0;
    proof {
        assert(s@.skip(0) =~= s@);
    }
    while a < s.len() && (s[a] == ' ' || s[a] == '\t' || s[a] == '\n' || s[a] == '\r' || s[a]
        == '\x0B' || s[a] == '\x0C')
        invariant
            a <= s@.len(),
            trim_start(s@) == trim_start(s@.skip(a as int)),
        decreases s@.len() - a,
    {
        proof {
            assert(s@.skip(a as int).drop_first() =~= s@.skip(a + 1));
        }
        a = a + 1;
    }
    let ghost front = s@.skip(a as int);
    proof {
        assert(trim_start(s@) == front);
    }
    let mut b: usize = s.len();
    proof {
        assert(s@.subrange(a as int, b as int) =~= front);
    }
    while b > a && (s[b - 1] == ' ' || s[b - 1] == '\t' || s[b - 1] == '\n' || s[b - 1] == '\r'
        || s[b - 1] == '\x0B' || s[b - 1] == '\x0C')
        invariant
            a <= b <= s@.len(),
            front == s@.skip(a as int),
            trim(s@) == trim_end(s@.subrange(a as int, b as int)),
        decreases b,
    {
        proof {
            assert(s@.subrange(a as int, b as int).drop_last() =~= s@.subrange(a as int, b - 1));
        }
        b = b - 1;
    }
    string_from_chars(vstd::slice::slice_subrange(s, a, b))
}

/// The pieces of a text between commas, each trimmed.
fn split_and_trim(s: &str) -> (r: Vec<String>)
    ensures
        texts_of(r@) == split_commas(s@).map_values(|p: Seq<char>| trim(p)),
{
    let cs = chars_of(s);
    let mut done: Vec<String> = Vec::new();
    let mut cur: Vec<char> = Vec::new();
    let ghost mut pieces: Seq<Seq<char>> = seq![Seq::empty()];
    let mut i: usize = 0;
    proof {
        assert(cs@.take(0) =~= Seq::<char>::empty());
    }
    while i < cs.len()
        invariant
            cs@ == s@,
            i <= cs@.len(),
            pieces == split_commas(cs@.take(i as int)),
            pieces.len() == done@.len() + 1,
            pieces.last() == cur@,
            forall|k: int| 0 <= k < done@.len() ==> (#[trigger] done@[k])@ == trim(pieces[k]),
        decreases cs@.len() - i,
    {
        proof {
            assert(cs@.take(i + 1).drop_last() =~= cs@.take(i as int));
        }
        let c = cs[i];
        if c == ',' {
            let piece = trimmed(cur.as_slice());
            done.push(piece);
            cur = Vec::new();
            proof {
                pieces = pieces.push(Seq::empty());
            }
        } else {
            cur.push(c);
            proof {
                pieces = pieces.update(pieces.len() - 1, pieces.last().push(c));
            }
        }
        i = i + 1;
    }
    let last = trimmed(cur.as_slice());
    done.push(last);
    proof {
        assert(cs@.take(cs@.len() as int) =~= cs@);
        assert(texts_of(done@) =~= split_commas(s@).map_values(|p: Seq<char>| trim(p)));
    }
    done
}

/// A string holding `s`, or `d` for none.
fn text_or(o: &Option<String>, d: &str) -> (r: String)
    ensures
        r@ == or_default(*o, d@),
{
    match o {
        Some(s) => s.clone(),
        None => owned(d),
    }
}

impl CacheEntry {
    /// The entry that a response with this status, these header fields and
    /// this body becomes at time `now`, with the CORS values of the
    /// configuration if there is one.
    pub fn from_response(
        status: u16,
        headers: Headers,
        body: Vec<u8>,
        cors_config: &Option<CorsConfig>,
        now: u64,
    ) -> (r: CacheEntry)
        requires
            lookup(headers@, "etag"@) matches Some(v) ==> is_text(v),
            lookup(headers@, "last-modified"@) matches Some(v) ==> is_text(v),
            *cors_config matches Some(c) ==> cors_config_ok(c),
        ensures
            r@ == entry_from(status, headers@, body@, *cors_config, now),
    {
        let cors_headers = match cors_config {
            Some(c) => Some(
                CorsHeaders {
                    allow_origin: text_or(&c.allow_origin, "*"),
                    allow_headers: text_or(&c.allow_headers, "*"),
                    allow_methods: text_or(&c.allow_methods, "GET,POST,PUT,DELETE,OPTIONS,PATCH"),
                },
            ),
            None => None,
        };
        let etag = match headers.get("etag") {
            Some(v) => match value_to_text(v.as_slice()) {
                Some(t) => t,
                None => owned(""),
            },
            None => {
                let digest = md5_digest(body.as_slice());
                let mut chars: Vec<char> = Vec::new();
                chars.push('"');
                let mut hex = hex_of_bytes(digest.as_slice());
                chars.append(&mut hex);
                chars.push('"');
                proof {
                    assert(chars@ =~= seq!['"'] + hex_bytes(spec_md5(body@)) + seq!['"']);
                }
                string_from_chars(chars.as_slice())
            },
        };
        let last_modified = match headers.get("last-modified") {
            Some(v) => value_to_text(v.as_slice()),
            None => None,
        };
        let vary_headers = match headers.get("vary") {
            Some(v) => match value_to_text(v.as_slice()) {
                Some(t) => Some(split_and_trim(t.as_str())),
                None => None,
            },
            None => None,
        };
        let r = CacheEntry {
            response: body,
            headers,
            status,
            expires_at: now,
            cors_headers,
            etag: Some(etag),
            last_modified,
            vary_headers,
        };
        proof {
            assert(r@ =~= entry_from(status, r.headers@, r.response@, *cors_config, now));
        }
        r
    }

    /// A copy of the entry.
    pub fn duplicate(&self) -> (r: CacheEntry)
        ensures
            r@ == self@,
    {
        let cors_headers = match &self.cors_headers {
            Some(c) => Some(
                CorsHeaders {
                    allow_origin: c.allow_origin.clone(),
                    allow_headers: c.allow_headers.clone(),
                    allow_methods: c.allow_methods.clone(),
                },
            ),
            None => None,
        };
        let vary_headers = match &self.vary_headers {
            Some(v) => {
                let mut out: Vec<String> = Vec::new();
                let mut i: usize = 0;
                while i < v.len()
                    invariant
                        i <= v@.len(),
                        out@.len() == i,
                        forall|k: int| 0 <= k < i ==> (#[trigger] out@[k])@ == v@[k]@,
                    decreases v@.len() - i,
                {
                    out.push(v[i].clone());
                    i = i + 1;
                }
                proof {
                    assert(texts_of(out@) =~= texts_of(v@));
                }
                Some(out)
            },
            None => None,
        };
        let r = CacheEntry {
            response: vstd::slice::slice_to_vec(self.response.as_slice()),
            headers: self.headers.duplicate(),
            status: self.status,
            expires_at: self.expires_at,
            cors_headers,
            etag: match &self.etag {
                Some(e) => Some(e.clone()),
                None => None,
            },
            last_modified: match &self.last_modified {
                Some(e) => Some(e.clone()),
                None => None,
            },
            vary_headers,
        };
        proof {
            assert(r@ =~= self@);
        }
        r
    }
}

// ---------------------------------------------------------------------------
// The map of entries
// ---------------------------------------------------------------------------

#[verifier::external_type_specification]
#[verifier::external_body]
#[verifier::reject_recursive_types(K)]
#[verifier::reject_recursive_types(V)]
#[verifier::reject_recursive_types(S)]
pub struct ExDashMap<K, V, S>(dashmap::DashMap<K, V, S>);

/// A map without entries.
pub open spec fn no_entries() -> Map<Seq<char>, EntryView> {
    Map::empty()
}

/// What a map of cached responses holds: each key's text and its entry.
pub uninterp spec fn stored(m: DashMap<String, CacheEntry>) -> Map<Seq<char>, EntryView>;

/// An empty map, made with `DashMap::new`.
#[verifier::external_body]
fn map_new() -> (r: DashMap<String, CacheEntry>)
    ensures
        stored(r) == no_entries(),
{
    DashMap::new()
}

/// A copy of the entry under `key`, read with `DashMap::view`, which hands
/// the entry under the key, if any, to the closure and returns its result;
/// the closure is the verified `CacheEntry::duplicate`.
#[verifier::external_body]
fn map_get(m: &DashMap<String, CacheEntry>, key: &str) -> (r: Option<CacheEntry>)
    ensures
        match r {
            Some(e) => stored(*m).contains_key(key@) && e@ == stored(*m)[key@],
            None => !stored(*m).contains_key(key@),
        },
{
    m.view(key, |_, v| v.duplicate())
}

/// Puts `value` under `key` with `DashMap::insert`, which replaces an entry
/// already under that key; it takes the shard's lock, which does not
/// poison, and does not unwind.
#[verifier::external_body]
fn map_insert(m: &mut DashMap<String, CacheEntry>, key: String, value: CacheEntry)
    ensures
        stored(*final(m)) == stored(*old(m)).insert(key@, value@),
    no_unwind
{
    m.insert(key, value);
}

/// Drops the entry under `key`, if any, with `DashMap::remove`, which, as
/// `insert`, does not unwind.
#[verifier::external_body]
fn map_remove(m: &mut DashMap<String, CacheEntry>, key: &str)
    ensures
        stored(*final(m)) == stored(*old(m)).remove(key@),
    no_unwind
{
    m.remove(key);
}

/// The number of entries, read with `DashMap::len`, which adds up the
/// entries of its shards.
#[verifier::external_body]
fn map_len(m: &DashMap<String, CacheEntry>) -> (r: usize)
    ensures
        r == stored(*m).dom().len(),
{
    m.len()
}

/// Each key of the map with the expiry time of its entry, read with
/// `DashMap::iter`, which visits every entry once, in no stated order.
#[verifier::external_body]
fn map_expiries(m: &DashMap<String, CacheEntry>) -> (r: Vec<(String, u64)>)
    ensures
        forall|i: int|
            0 <= i < r@.len() ==> stored(*m).contains_key((#[trigger] r@[i]).0@) && stored(
                *m,
            )[r@[i].0@].expires_at == r@[i].1,
        forall|k: Seq<char>|
            #[trigger] stored(*m).contains_key(k) ==> exists|i: int|
                0 <= i < r@.len() && (#[trigger] r@[i]).0@ == k,
{
    m.iter().map(|entry| (entry.key().clone(), entry.value().expires_at)).collect()
}

// ---------------------------------------------------------------------------
// The cache
// ---------------------------------------------------------------------------

/// Cached responses by key, each kept until its expiry time, and never more
/// of them than the configured maximum. Responses are stored and served as
/// they came, whether or not the configuration asks for serialization.
pub struct Cache {
    entries: DashMap<String, CacheEntry>,
    ttl: Duration,
    serialize: bool,
    max_size: usize,
}

impl View for Cache {
    type V = Map<Seq<char>, EntryView>;

    closed spec fn view(&self) -> Map<Seq<char>, EntryView> {
        stored(self.entries)
    }
}

impl Cache {
    /// The cache holds finitely many entries, at most `max_size` of them.
    #[verifier::type_invariant]
    closed spec fn inv(self) -> bool {
        &&& stored(self.entries).dom().finite()
        &&& stored(self.entries).dom().len() <= self.max_size
    }

    /// The most entries the cache holds.
    pub closed spec fn spec_max_size(&self) -> usize {
        self.max_size
    }

    /// How long an entry lives.
    pub closed spec fn spec_ttl(&self) -> Duration {
        self.ttl
    }

    /// The configuration's choice of serialization.
    pub closed spec fn spec_serialize(&self) -> bool {
        self.serialize
    }
}

/// The time to live in whole milliseconds.
pub open spec fn ttl_millis(ttl: Duration) -> int {
    ttl.total() / 1_000_000
}

/// The expiry time of an entry stored at `now`: `now` plus the time to live,
/// or the clock's last reading when that does not fit.
pub open spec fn expiry(now: u64, ttl: Duration) -> u64 {
    if now + ttl_millis(ttl) <= u64::MAX {
        (now + ttl_millis(ttl)) as u64
    } else {
        u64::MAX
    }
}

/// The entry that `put` stores for `e` at time `now`.
pub open spec fn put_entry(e: EntryView, ttl: Duration, now: u64) -> EntryView {
    EntryView { expires_at: expiry(now, ttl), ..e }
}

/// What a lookup of `key` at time `now` finds: a live entry.
pub open spec fn lookup_at(m: Map<Seq<char>, EntryView>, key: Seq<char>, now: u64) -> Option<EntryView> {
    if m.contains_key(key) && m[key].expires_at > now {
        Some(m[key])
    } else {
        None
    }
}

/// The entries after a lookup of `key` at time `now`: an expired entry under
/// that key is dropped.
pub open spec fn after_lookup(m: Map<Seq<char>, EntryView>, key: Seq<char>, now: u64) -> Map<Seq<char>, EntryView> {
    if m.contains_key(key) && m[key].expires_at <= now {
        m.remove(key)
    } else {
        m
    }
}

/// Whether `v` is an entry of `m` that expires no later than any other: the
/// one that a full cache gives up for a new key.
pub open spec fn oldest(m: Map<Seq<char>, EntryView>, v: Seq<char>) -> bool {
    &&& m.contains_key(v)
    &&& forall|k: Seq<char>| #[trigger] m.contains_key(k) ==> m[v].expires_at <= m[k].expires_at
}

/// Whether `m2` is what storing `e` under `key` makes of the entries `m` of
/// a cache that holds at most `max_size` of them: a key already there gets
/// the new entry; a new key is added while there is room, and in a full
/// cache it takes the place of an entry that expires first; a cache that
/// may hold nothing stores nothing.
pub open spec fn put_result(
    m: Map<Seq<char>, EntryView>,
    max_size: nat,
    key: Seq<char>,
    e: EntryView,
    m2: Map<Seq<char>, EntryView>,
) -> bool {
    if m.contains_key(key) {
        m2 == m.insert(key, e)
    } else if max_size == 0 {
        m2 == m
    } else if m.dom().len() < max_size {
        m2 == m.insert(key, e)
    } else {
        exists|v: Seq<char>| oldest(m, v) && m2 == m.remove(v).insert(key, e)
    }
}

/// Whether the entries fit a cache that holds at most `max_size` of them.
pub open spec fn within_size(m: Map<Seq<char>, EntryView>, max_size: nat) -> bool {
    m.dom().finite() && m.dom().len() <= max_size
}

/// Storing keeps the entries within the cache's size, and in a cache that
/// may hold anything, the stored entry is then under its key.
pub proof fn law_put_keeps_size(
    m: Map<Seq<char>, EntryView>,
    max_size: nat,
    key: Seq<char>,
    e: EntryView,
    m2: Map<Seq<char>, EntryView>,
)
    requires
        within_size(m, max_size),
        put_result(m, max_size, key, e, m2),
    ensures
        within_size(m2, max_size),
        max_size > 0 ==> m2.contains_key(key) && m2[key] == e,
{
    broadcast use vstd::set::group_set_axioms;
    if m.contains_key(key) {
        assert(m2.dom() =~= m.dom());
    } else if max_size == 0 {
    } else if m.dom().len() < max_size {
        assert(m2.dom() == m.dom().insert(key));
    } else {
        let v = choose|v: Seq<char>| oldest(m, v) && m2 == m.remove(v).insert(key, e);
        assert(m.remove(v).dom() == m.dom().remove(v));
        assert(m2.dom() == m.dom().remove(v).insert(key));
    }
}

/// The entries that are still live at time `now`.
pub open spec fn live_at(m: Map<Seq<char>, EntryView>, now: u64) -> Map<Seq<char>, EntryView> {
    m.restrict(m.dom().filter(|k: Seq<char>| m[k].expires_at > now))
}

/// The time to live in whole milliseconds, or `u64::MAX` when that does not
/// fit.
fn ttl_in_millis(ttl: &Duration) -> (r: u64)
    ensures
        ttl_millis(*ttl) <= u64::MAX ==> r == ttl_millis(*ttl),
        ttl_millis(*ttl) > u64::MAX ==> r == u64::MAX,
{
    let secs = ttl.as_secs();
    let nanos = ttl.subsec_nanos();
    proof {
        use_type_invariant(ttl);
        ttl.lemma_parts();
        assert(ttl.total() / 1_000_000 == secs as int * 1000 + nanos as int / 1_000_000) by (nonlinear_arith)
            requires
                ttl.total() == secs as int * 1_000_000_000 + nanos as int,
                nanos < 1_000_000_000,
        ;
    }
    let millis: u128 = secs as u128 * 1000 + (nanos / 1_000_000) as u128;
    if millis > u64::MAX as u128 {
        u64::MAX
    } else {
        millis as u64
    }
}

impl Cache {
    /// An empty cache with the configuration's time to live and choice of
    /// serialization.
    pub fn new(config: &CacheConfig) -> (c: Cache)
        ensures
            c@ == no_entries(),
            c.spec_ttl().total() == config.ttl_seconds as int * 1_000_000_000,
            c.spec_serialize() == config.serialize,
            c.spec_max_size() == config.max_size,
    {
        let entries = map_new();
        proof {
            assert(stored(entries).dom() =~= Set::<Seq<char>>::empty());
        }
        Cache {
            entries,
            ttl: Duration::from_secs(config.ttl_seconds),
            serialize: config.serialize,
            max_size: config.max_size,
        }
    }

    /// The number of entries.
    pub fn len(&self) -> (n: usize)
        ensures
            n == self@.dom().len(),
            within_size(self@, self.spec_max_size() as nat),
    {
        proof {
            use_type_invariant(self);
        }
        map_len(&self.entries)
    }

    /// The live entry under `key` at time `now`; an expired one is dropped.
    pub fn get_at(&mut self, key: &str, now: u64) -> (r: Option<CacheEntry>)
        ensures
            match r {
                Some(e) => lookup_at(old(self)@, key@, now) == Some(e@),
                None => lookup_at(old(self)@, key@, now) is None,
            },
            final(self)@ == after_lookup(old(self)@, key@, now),
            final(self).spec_ttl() == old(self).spec_ttl(),
            final(self).spec_serialize() == old(self).spec_serialize(),
            final(self).spec_max_size() == old(self).spec_max_size(),
            within_size(final(self)@, final(self).spec_max_size() as nat),
    {
        let r = match map_get(&self.entries, key) {
            Some(entry) => {
                if entry.expires_at > now {
                    Some(entry)
                } else {
                    self.remove_expired(key);
                    None
                }
            },
            None => None,
        };
        proof {
            use_type_invariant(&*self);
        }
        r
    }

    /// The live entry under `key` now; an expired one is dropped.
    pub fn get(&mut self, key: &str) -> (r: Option<CacheEntry>)
        ensures
            exists|now: u64|
                {
                    &&& match r {
                        Some(e) => lookup_at(old(self)@, key@, now) == Some(e@),
                        None => lookup_at(old(self)@, key@, now) is None,
                    }
                    &&& final(self)@ == after_lookup(old(self)@, key@, now)
                },
            final(self).spec_ttl() == old(self).spec_ttl(),
            final(self).spec_serialize() == old(self).spec_serialize(),
            final(self).spec_max_size() == old(self).spec_max_size(),
            within_size(final(self)@, final(self).spec_max_size() as nat),
    {
        let now = clock_millis();
        self.get_at(key, now)
    }

    /// Stores a response under `key` at time `now`, to expire one time to
    /// live later. A new key goes in while there is room; in a full cache it
    /// takes the place of an entry that expires first.
    pub fn put_at(&mut self, key: String, response: CacheEntry, now: u64)
        ensures
            put_result(
                old(self)@,
                old(self).spec_max_size() as nat,
                key@,
                put_entry(response@, old(self).spec_ttl(), now),
                final(self)@,
            ),
            final(self).spec_ttl() == old(self).spec_ttl(),
            final(self).spec_serialize() == old(self).spec_serialize(),
            final(self).spec_max_size() == old(self).spec_max_size(),
            within_size(final(self)@, final(self).spec_max_size() as nat),
    {
        proof {
            use_type_invariant(&*self);
        }
        let body = response.response;
        let ttl = ttl_in_millis(&self.ttl);
        let expires_at = if now > u64::MAX - ttl {
            u64::MAX
        } else {
            now + ttl
        };
        let entry = CacheEntry {
            response: body,
            headers: response.headers,
            status: response.status,
            expires_at,
            cors_headers: response.cors_headers,
            etag: response.etag,
            last_modified: response.last_modified,
            vary_headers: response.vary_headers,
        };
        proof {
            assert(entry@ =~= put_entry(response@, self.ttl, now));
        }
        let ghost m = self@;
        let present = map_get(&self.entries, key.as_str()).is_some();
        if present {
            proof {
                assert(m.dom().insert(key@) =~= m.dom());
            }
            map_insert(&mut self.entries, key, entry);
        } else if self.max_size == 0 {
        } else {
            let n = map_len(&self.entries);
            if n >= self.max_size {
                let victim = self.oldest_key();
                proof {
                    assert(m.dom().remove(victim@).len() == m.dom().len() - 1);
                }
                map_remove(&mut self.entries, victim.as_str());
                proof {
                    assert(self@.dom() =~= m.dom().remove(victim@));
                    assert(!self@.dom().contains(key@));
                    assert(self@.dom().insert(key@).len() == self@.dom().len() + 1);
                }
                map_insert(&mut self.entries, key, entry);
            } else {
                proof {
                    assert(m.dom().insert(key@).len() == m.dom().len() + 1);
                }
                map_insert(&mut self.entries, key, entry);
            }
        }
        proof {
            use_type_invariant(&*self);
        }
    }

    /// The key of an entry that expires no later than any other.
    fn oldest_key(&self) -> (v: String)
        requires
            self@.dom().len() > 0,
        ensures
            oldest(self@, v@),
    {
        let expiries = map_expiries(&self.entries);
        let ghost m = self@;
        proof {
            if expiries@.len() == 0 {
                assert forall|k: Seq<char>| !m.dom().contains(k) by {
                    if m.contains_key(k) {
                        let i = choose|i: int| 0 <= i < expiries@.len() && (#[trigger] expiries@[i]).0@ == k;
                    }
                }
                assert(m.dom() =~= Set::<Seq<char>>::empty());
            }
        }
        let mut best: usize = 0;
        let mut i: usize = 1;
        while i < expiries.len()
            invariant
                0 < expiries@.len(),
                best < i <= expiries@.len(),
                forall|j: int| 0 <= j < i ==> expiries@[best as int].1 <= (#[trigger] expiries@[j]).1,
            decreases expiries@.len() - i,
        {
            if expiries[i].1 < expiries[best].1 {
                best = i;
            }
            i = i + 1;
        }
        proof {
            assert forall|k: Seq<char>| #[trigger] m.contains_key(k) implies m[expiries@[best as int].0@].expires_at
                <= m[k].expires_at by {
                let j = choose|j: int| 0 <= j < expiries@.len() && (#[trigger] expiries@[j]).0@ == k;
                assert(expiries@[j].1 == m[k].expires_at);
            }
        }
        expiries[best].0.clone()
    }

    /// Stores a response under `key` now.
    pub fn put(&mut self, key: String, response: CacheEntry)
        ensures
            exists|now: u64|
                put_result(
                    old(self)@,
                    old(self).spec_max_size() as nat,
                    key@,
                    #[trigger] put_entry(response@, old(self).spec_ttl(), now),
                    final(self)@,
                ),
            final(self).spec_ttl() == old(self).spec_ttl(),
            final(self).spec_serialize() == old(self).spec_serialize(),
            final(self).spec_max_size() == old(self).spec_max_size(),
            within_size(final(self)@, final(self).spec_max_size() as nat),
    {
        let now = clock_millis();
        self.put_at(key, response, now);
    }

    /// Drops the entry under `key`, if any.
    pub fn remove_expired(&mut self, key: &str)
        ensures
            final(self)@ == old(self)@.remove(key@),
            final(self).spec_ttl() == old(self).spec_ttl(),
            final(self).spec_serialize() == old(self).spec_serialize(),
            final(self).spec_max_size() == old(self).spec_max_size(),
            within_size(final(self)@, final(self).spec_max_size() as nat),
    {
        proof {
            use_type_invariant(&*self);
            assert(self@.dom().remove(key@).subset_of(self@.dom()));
            vstd::set_lib::lemma_len_subset(self@.dom().remove(key@), self@.dom());
        }
        map_remove(&mut self.entries, key);
        proof {
            use_type_invariant(&*self);
        }
    }

    /// Drops every entry that has expired by time `now`.
    pub fn clean_expired_entries_at(&mut self, now: u64)
        ensures
            final(self)@ == live_at(old(self)@, now),
            final(self).spec_ttl() == old(self).spec_ttl(),
            final(self).spec_serialize() == old(self).spec_serialize(),
            final(self).spec_max_size() == old(self).spec_max_size(),
            within_size(final(self)@, final(self).spec_max_size() as nat),
    {
        let ghost m0 = self@;
        let expiries = map_expiries(&self.entries);
        let mut i: usize = 0;
        while i < expiries.len()
            invariant
                i <= expiries@.len(),
                forall|j: int|
                    0 <= j < expiries@.len() ==> m0.contains_key((#[trigger] expiries@[j]).0@)
                        && m0[expiries@[j].0@].expires_at == expiries@[j].1,
                forall|k: Seq<char>|
                    #[trigger] m0.contains_key(k) ==> exists|j: int|
                        0 <= j < expiries@.len() && (#[trigger] expiries@[j]).0@ == k,
                forall|k: Seq<char>|
                    #[trigger] self@.contains_key(k) <==> (m0.contains_key(k) && (m0[k].expires_at
                        > now || forall|j: int|
                        0 <= j < i ==> (#[trigger] expiries@[j]).0@ != k)),
                forall|k: Seq<char>| #[trigger] self@.contains_key(k) ==> self@[k] == m0[k],
                self.spec_ttl() == old(self).spec_ttl(),
                self.spec_serialize() == old(self).spec_serialize(),
                self.spec_max_size() == old(self).spec_max_size(),
            decreases expiries@.len() - i,
        {
            if expiries[i].1 <= now {
                self.remove_expired(expiries[i].0.as_str());
            }
            proof {
                assert forall|k: Seq<char>| #[trigger] self@.contains_key(k) <==> (m0.contains_key(k)
                    && (m0[k].expires_at > now || forall|j: int|
                    0 <= j < i + 1 ==> (#[trigger] expiries@[j]).0@ != k)) by {
                    if m0.contains_key(k) && m0[k].expires_at <= now && expiries@[i as int].0@ == k {
                        assert(!self@.contains_key(k));
                    }
                }
            }
            i = i + 1;
        }
        proof {
            assert forall|k: Seq<char>| #[trigger] self@.contains_key(k) <==> live_at(m0, now).contains_key(k) by {
                if m0.contains_key(k) && m0[k].expires_at <= now {
                    let j = choose|j: int| 0 <= j < expiries@.len() && (#[trigger] expiries@[j]).0@ == k;
                    assert(expiries@[j].0@ == k);
                }
            }
            assert(self@ =~= live_at(m0, now));
            use_type_invariant(&*self);
        }
    }

    /// Drops every entry that has expired by now.
    pub fn clean_expired_entries(&mut self)
        ensures
            exists|now: u64| final(self)@ == #[trigger] live_at(old(self)@, now),
            final(self).spec_ttl() == old(self).spec_ttl(),
            final(self).spec_serialize() == old(self).spec_serialize(),
            final(self).spec_max_size() == old(self).spec_max_size(),
            within_size(final(self)@, final(self).spec_max_size() as nat),
    {
        let now = clock_millis();
        self.clean_expired_entries_at(now);
    }
}

// ---------------------------------------------------------------------------
// Cache keys
// ---------------------------------------------------------------------------

/// A part of a key's material: its length in hexadecimal, a colon, then the
/// part itself.
pub open spec fn framed(part: Seq<char>) -> Seq<char> {
    hex_u64(part.len() as u64) + seq![':'] + part
}

/// The value that a request's header fields give the header `name`, looked
/// up as HTTP's name type looks names up.
pub open spec fn vary_value(h: Seq<Field>, name: Seq<char>) -> Option<Seq<u8>> {
    match spec_parse_header_name(name) {
        Some(n) => lookup(h, n),
        None => None,
    }
}

/// The material of the varying headers: each name that the request carries,
/// with its value in hexadecimal.
pub open spec fn vary_material(h: Seq<Field>, names: Seq<Seq<char>>) -> Seq<char>
    decreases names.len(),
{
    if names.len() == 0 {
        Seq::empty()
    } else {
        vary_material(h, names.drop_last()) + match vary_value(h, names.last()) {
            Some(v) => framed(names.last()) + framed(hex_bytes(v)),
            None => Seq::empty(),
        }
    }
}

/// What a cache key is computed from: the target URL, the request URI and
/// the request's values of the varying headers.
pub open spec fn key_material(
    url: Seq<char>,
    uri: Seq<char>,
    h: Seq<Field>,
    vary: Option<Seq<Seq<char>>>,
) -> Seq<char> {
    framed(url) + framed(uri) + match vary {
        Some(names) => vary_material(h, names),
        None => Seq::empty(),
    }
}

/// Varying headers that the request does not carry leave the cache key as
/// it is without them: the key material with such names is the material
/// with no varying headers at all.
pub proof fn law_absent_vary_headers_leave_key(url: Seq<char>, uri: Seq<char>, h: Seq<Field>, names: Seq<Seq<char>>)
    requires
        forall|i: int| 0 <= i < names.len() ==> vary_value(h, #[trigger] names[i]) is None,
    ensures
        key_material(url, uri, h, Some(names)) == key_material(url, uri, h, None),
    decreases names.len(),
{
    lemma_absent_vary_material(h, names);
    assert(key_material(url, uri, h, None) =~= framed(url) + framed(uri));
    assert(key_material(url, uri, h, Some(names)) =~= framed(url) + framed(uri));
}

proof fn lemma_absent_vary_material(h: Seq<Field>, names: Seq<Seq<char>>)
    requires
        forall|i: int| 0 <= i < names.len() ==> vary_value(h, #[trigger] names[i]) is None,
    ensures
        vary_material(h, names) == Seq::<char>::empty(),
    decreases names.len(),
{
    if names.len() > 0 {
        let front = names.drop_last();
        assert forall|i: int| 0 <= i < front.len() implies vary_value(h, #[trigger] front[i]) is None by {
            assert(front[i] == names[i]);
        }
        lemma_absent_vary_material(h, front);
        assert(vary_value(h, names[names.len() - 1]) is None);
        assert(vary_material(h, names) =~= Seq::<char>::empty());
    }
}

/// Appends `part` framed by its length.
fn push_framed(out: &mut Vec<char>, part: &[char])
    ensures
        final(out)@ == old(out)@ + framed(part@),
{
    let ghost start = out@;
    let mut len = hex_of_u64(part.len() as u64);
    out.append(&mut len);
    out.push(':');
    let ghost head = out@;
    let mut j: usize = 0;
    while j < part.len()
        invariant
            j <= part@.len(),
            out@ == head + part@.take(j as int),
        decreases part@.len() - j,
    {
        out.push(part[j]);
        j = j + 1;
        proof {
            assert(out@ =~= head + part@.take(j as int));
        }
    }
    proof {
        assert(part@.take(part@.len() as int) =~= part@);
        assert(out@ =~= start + framed(part@));
    }
}

/// The cache key of a request to `target_url`: the hash of the URL, the
/// request URI and the request's values of the response's varying headers,
/// in lower-case hexadecimal.
pub fn create_cache_key(
    target_url: &str,
    uri: &str,
    headers: &Headers,
    vary_headers: Option<&Vec<String>>,
) -> (r: String)
    ensures
        r@ == hex_u64(
            spec_hash_str(
                key_material(
                    target_url@,
                    uri@,
                    headers@,
                    match vary_headers {
                        Some(v) => Some(texts_of(v@)),
                        None => None,
                    },
                ),
            ),
        ),
{
    let mut material: Vec<char> = Vec::new();
    push_framed(&mut material, chars_of(target_url).as_slice());
    push_framed(&mut material, chars_of(uri).as_slice());
    let ghost base = material@;
    proof {
        assert(base =~= framed(target_url@) + framed(uri@));
    }
    match vary_headers {
        Some(names) => {
            let mut i: usize = 0;
            proof {
                assert(texts_of(names@).take(0) =~= Seq::<Seq<char>>::empty());
                assert(material@ =~= base + vary_material(headers@, texts_of(names@).take(0)));
            }
            while i < names.len()
                invariant
                    i <= names@.len(),
                    material@ == base + vary_material(headers@, texts_of(names@).take(i as int)),
                decreases names@.len() - i,
            {
                proof {
                    let t = texts_of(names@).take(i + 1);
                    assert(t.drop_last() =~= texts_of(names@).take(i as int));
                    assert(t.last() == names@[i as int]@);
                }
                match parse_header_name(names[i].as_str()) {
                    Some(n) => match headers.get(n.as_str()) {
                        Some(v) => {
                            push_framed(&mut material, chars_of(names[i].as_str()).as_slice());
                            push_framed(&mut material, hex_of_bytes(v.as_slice()).as_slice());
                        },
                        None => {},
                    },
                    None => {},
                }
                i = i + 1;
                proof {
                    assert(material@ =~= base + vary_material(headers@, texts_of(names@).take(i as int)));
                }
            }
            proof {
                assert(texts_of(names@).take(names@.len() as int) =~= texts_of(names@));
            }
        },
        None => {
            proof {
                assert(material@ =~= base + Seq::<char>::empty());
            }
        },
    }
    let text = string_from_chars(material.as_slice());
    let h = hash_str(text.as_str());
    string_from_chars(hex_of_u64(h).as_slice())
}

// ---------------------------------------------------------------------------
// Laws
// ---------------------------------------------------------------------------

/// A response just stored is found under its key until it expires, and not
/// from its expiry time on; other keys are found as before.
pub proof fn law_get_after_put(
    m: Map<Seq<char>, EntryView>,
    key: Seq<char>,
    e: EntryView,
    ttl: Duration,
    now: u64,
    t: u64,
    other: Seq<char>,
)
    ensures
        t < expiry(now, ttl) ==> lookup_at(m.insert(key, put_entry(e, ttl, now)), key, t)
            == Some(put_entry(e, ttl, now)),
        t >= expiry(now, ttl) ==> lookup_at(
            m.insert(key, put_entry(e, ttl, now)),
            key,
            t,
        ) is None,
        other != key ==> lookup_at(m.insert(key, put_entry(e, ttl, now)), other, t)
            == lookup_at(m, other, t),
{
}

/// A lookup never finds an entry that has expired.
pub proof fn law_lookup_finds_only_live(m: Map<Seq<char>, EntryView>, key: Seq<char>, now: u64)
    ensures
        lookup_at(m, key, now) matches Some(e) ==> e.expires_at > now,
        after_lookup(m, key, now).contains_key(key) ==> after_lookup(m, key, now)[key].expires_at
            > now,
{
}

/// Sweeping at time `now` keeps exactly the entries live at `now`, and
/// changes nothing that a lookup at `now` or later finds.
pub proof fn law_sweep_keeps_live(m: Map<Seq<char>, EntryView>, now: u64, key: Seq<char>, t: u64)
    ensures
        live_at(m, now).contains_key(key) <==> (m.contains_key(key) && m[key].expires_at > now),
        live_at(m, now).contains_key(key) ==> live_at(m, now)[key] == m[key],
        t >= now ==> lookup_at(live_at(m, now), key, t) == lookup_at(m, key, t),
{
}

} // verus!
