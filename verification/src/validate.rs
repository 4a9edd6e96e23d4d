//! Request validation: the URI, the header fields and the body must pass
//! fixed character rules, size limits and HTML sanitization.
use vstd::prelude::*;
use vstd::string::*;
use crate::headers::{Headers, Field, is_text, ascii_text, value_to_text};
use crate::text::{chars_of, chars_eq, chars_to_ascii_lower, ascii_lower};

verus! {

pub const MAX_HEADER_SIZE: usize = 8192;
pub const MAX_BODY_SIZE: usize = 1048576;

pub const URI_PATTERN: &'static str = r"^[a-zA-Z0-9\-._~:/?#\[\]@!$&'()*+,;=%]+$";
pub const HEADER_NAME_PATTERN: &'static str = r"^[a-zA-Z0-9\-]+$";
pub const CONTENT_TYPE_PATTERN: &'static str = r"^[a-zA-Z0-9\-._+\/;=\s]+$";
pub const USER_AGENT_PATTERN: &'static str = r"^[a-zA-Z0-9\-._~!$&'()*+,;=\/: ]+$";
pub const DEFAULT_HEADER_VALUE_PATTERN: &'static str = r"^[\x20-\x7E]+$";

// ---------------------------------------------------------------------------
// Outside computations
// ---------------------------------------------------------------------------

/// Whether `text` matches the regular expression `pattern`; `None` when the
/// pattern does not compile.
pub uninterp spec fn spec_regex_match(pattern: Seq<char>, text: Seq<char>) -> Option<bool>;

/// What HTML sanitization leaves of a text.
pub uninterp spec fn spec_sanitize_html(text: Seq<char>) -> Seq<char>;

/// A byte string read as UTF-8, with each invalid sequence replaced by the
/// replacement character.
pub uninterp spec fn spec_utf8_lossy(bytes: Seq<u8>) -> Seq<char>;

/// Matches `text` against the regular expression `pattern`.
///
/// This compiles the pattern with `regex::Regex::new` and, when that
/// succeeds, asks `Regex::is_match`; a pattern that does not compile gives
/// `None`.
#[verifier::external_body]
pub(crate) fn regex_match(pattern: &str, text: &str) -> (r: Option<bool>)
    ensures
        r == spec_regex_match(pattern@, text@),
{
    match regex::Regex::new(pattern) {
        Ok(re) => Some(re.is_match(text)),
        Err(_) => None,
    }
}

/// Sanitizes HTML with `ammonia::clean`, which keeps the text and the tags
/// and attributes that its default policy allows.
#[verifier::external_body]
fn sanitize_html(text: &str) -> (r: String)
    ensures
        r@ == spec_sanitize_html(text@),
{
    ammonia::clean(text)
}

/// Reads bytes as UTF-8 with `String::from_utf8_lossy`, which gives the
/// text itself when the bytes are valid UTF-8.
#[verifier::external_body]
fn utf8_lossy(bytes: &[u8]) -> (r: String)
    ensures
        r@ == spec_utf8_lossy(bytes@),
        forall|s: Seq<char>| #[trigger] vstd::utf8::encode_utf8(s) == bytes@ ==> r@ == s,
{
    String::from_utf8_lossy(bytes).into_owned()
}

// ---------------------------------------------------------------------------
// The rules
// ---------------------------------------------------------------------------

/// Whether a URI passes.
pub open spec fn uri_ok(uri: Seq<char>) -> bool {
    spec_regex_match(URI_PATTERN@, uri) == Some(true)
}

/// The size of the header fields: the bytes of every name and value.
pub open spec fn header_bytes(h: Seq<Field>) -> nat
    decreases h.len(),
{
    if h.len() == 0 {
        0
    } else {
        header_bytes(h.drop_last()) + vstd::utf8::encode_utf8(h.last().0).len() + h.last().1.len()
    }
}

/// How a header value is written in a message: in double quotes, with each
/// double quote preceded by a backslash.
pub open spec fn quoted(s: Seq<char>) -> Seq<char>
    decreases s.len(),
{
    if s.len() == 0 {
        "\"\""@
    } else {
        let inner = quoted(s.drop_last());
        let c = s.last();
        inner.take(inner.len() - 1) + (if c == '"' {
            seq!['\\', '"']
        } else {
            seq![c]
        }) + seq!['"']
    }
}

/// The pattern that a value of the named header must match; header names
/// are compared without regard to ASCII case.
pub open spec fn value_pattern(name: Seq<char>) -> Seq<char> {
    if ascii_lower(name) == "content-type"@ {
        CONTENT_TYPE_PATTERN@
    } else if ascii_lower(name) == "user-agent"@ {
        USER_AGENT_PATTERN@
    } else {
        DEFAULT_HEADER_VALUE_PATTERN@
    }
}

/// The complaint about one header field, if it has a fault.
pub open spec fn field_fault(f: Field) -> Option<Seq<char>> {
    if spec_regex_match(HEADER_NAME_PATTERN@, f.0) != Some(true) {
        Some("Invalid header name detected: "@ + f.0)
    } else if !is_text(f.1) {
        Some("Non-ASCII header value detected for "@ + f.0)
    } else if spec_regex_match(value_pattern(f.0), ascii_text(f.1)) != Some(true) {
        Some("Invalid header value detected for "@ + f.0 + ": "@ + quoted(ascii_text(f.1)))
    } else {
        None
    }
}

/// The complaint about the first faulty field from position `i` on.
pub open spec fn first_fault(h: Seq<Field>, i: nat) -> Option<Seq<char>>
    decreases h.len() - i,
{
    if i >= h.len() {
        None
    } else {
        match field_fault(h[i as int]) {
            Some(m) => Some(m),
            None => first_fault(h, i + 1),
        }
    }
}

/// The verdict on a set of header fields.
pub open spec fn headers_verdict(h: Seq<Field>) -> Option<Seq<char>> {
    if header_bytes(h) > MAX_HEADER_SIZE {
        Some("Header size exceeds the limit"@)
    } else {
        first_fault(h, 0)
    }
}

/// The verdict on a body.
pub open spec fn body_verdict(body: Seq<u8>) -> Option<Seq<char>> {
    if body.len() > MAX_BODY_SIZE {
        Some("Body size exceeds the limit"@)
    } else if spec_sanitize_html(spec_utf8_lossy(body)) != spec_utf8_lossy(body) {
        Some("HTML sanitization failed: potentially harmful content detected"@)
    } else {
        None
    }
}

/// The verdict on a whole request: the URI first, then the headers, then the
/// body.
pub open spec fn request_verdict(uri: Seq<char>, h: Seq<Field>, body: Seq<u8>) -> Option<Seq<char>> {
    if !uri_ok(uri) {
        Some("Invalid URI detected"@)
    } else if headers_verdict(h) is Some {
        headers_verdict(h)
    } else {
        body_verdict(body)
    }
}

/// Whether a result carries exactly the given verdict.
pub open spec fn matches_verdict(r: Result<(), String>, v: Option<Seq<char>>) -> bool {
    match v {
        None => r is Ok,
        Some(m) => r matches Err(e) && e@ == m,
    }
}

// ---------------------------------------------------------------------------
// Checks
// ---------------------------------------------------------------------------

fn string_of(s: &str) -> (r: String)
    ensures
        r@ == s@,
{
    s.to_owned()
}

/// Checks the URI.
pub fn validate_uri(uri: &str) -> (r: Result<(), String>)
    ensures
        matches_verdict(r, if uri_ok(uri@) { None } else { Some("Invalid URI detected"@) }),
{
    match regex_match(URI_PATTERN, uri) {
        Some(true) => Ok(()),
        _ => Err(string_of("Invalid URI detected")),
    }
}

/// A header value in double quotes, each double quote escaped.
fn quote(s: &str) -> (r: String)
    ensures
        r@ == quoted(s@),
{
    let cs = chars_of(s);
    let mut out: Vec<char> = Vec::new();
    out.push('"');
    let mut i: usize = 0;
    proof {
        reveal_strlit("\"\"");
        assert(quoted(cs@.take(0)) =~= seq!['"', '"']);
    }
    while i < cs.len()
        invariant
            i <= cs@.len(),
            out@.push('"') == quoted(cs@.take(i as int)),
        decreases cs@.len() - i,
    {
        let c = cs[i];
        proof {
            assert(cs@.take(i + 1).drop_last() =~= cs@.take(i as int));
            assert(cs@.take(i + 1).last() == c);
            let inner = quoted(cs@.take(i as int));
            assert(inner.take(inner.len() - 1) =~= out@);
        }
        if c == '"' {
            out.push('\\');
            out.push('"');
        } else {
            out.push(c);
        }
        i = i + 1;
        proof {
            let prev = cs@.take(i - 1);
            assert(out@.push('"') =~= quoted(cs@.take(i as int)));
        }
    }
    out.push('"');
    proof {
        assert(cs@.take(cs@.len() as int) =~= cs@);
    }
    crate::text::string_from_chars(out.as_slice())
}

/// The complaint about one field, if any.
fn check_field(name: &String, value: &Vec<u8>) -> (r: Option<String>)
    ensures
        match r {
            Some(m) => field_fault((name@, value@)) == Some(m@),
            None => field_fault((name@, value@)) is None,
        },
{
    match regex_match(HEADER_NAME_PATTERN, name.as_str()) {
        Some(true) => {},
        _ => {
            return Some(string_of("Invalid header name detected: ").concat(name.as_str()));
        },
    }
    let text = match value_to_text(value.as_slice()) {
        Some(t) => t,
        None => {
            return Some(string_of("Non-ASCII header value detected for ").concat(name.as_str()));
        },
    };
    let n = chars_to_ascii_lower(chars_of(name.as_str()).as_slice());
    let ct = chars_of("content-type");
    let ua = chars_of("user-agent");
    let pattern = if chars_eq(n.as_slice(), ct.as_slice()) {
        CONTENT_TYPE_PATTERN
    } else if chars_eq(n.as_slice(), ua.as_slice()) {
        USER_AGENT_PATTERN
    } else {
        DEFAULT_HEADER_VALUE_PATTERN
    };
    match regex_match(pattern, text.as_str()) {
        Some(true) => None,
        _ => {
            let msg = string_of("Invalid header value detected for ").concat(name.as_str()).concat(
                ": ",
            ).concat(quote(text.as_str()).as_str());
            Some(msg)
        },
    }
}

/// Checks the header fields: their total size, then each field in order.
pub fn validate_headers(headers: &Headers) -> (r: Result<(), String>)
    ensures
        matches_verdict(r, headers_verdict(headers@)),
{
    let entries = headers.entries();
    let ghost h = headers@;
    let mut total: usize = 0;
    let mut over = false;
    let mut i: usize = 0;
    while i < entries.len()
        invariant
            h == Seq::new(entries@.len(), |k: int| (entries@[k].0@, entries@[k].1@)),
            i <= entries@.len(),
            !over ==> total as nat == header_bytes(h.take(i as int)),
            !over ==> total <= MAX_HEADER_SIZE,
            over ==> header_bytes(h.take(i as int)) > MAX_HEADER_SIZE,
        decreases entries@.len() - i,
    {
        proof {
            assert(h.take(i + 1).drop_last() =~= h.take(i as int));
            assert(h.take(i + 1).last() == h[i as int]);
        }
        let name = entries[i].0.as_str();
        let name_len = name.as_bytes().len();
        proof {
            assert(h[i as int] == (entries@[i as int].0@, entries@[i as int].1@));
            assert(name_len == vstd::utf8::encode_utf8(h[i as int].0).len());
        }
        let value_len = entries[i].1.len();
        if !over {
            if name_len > MAX_HEADER_SIZE || value_len > MAX_HEADER_SIZE || total + name_len
                + value_len > MAX_HEADER_SIZE {
                over = true;
            } else {
                total = total + name_len + value_len;
            }
        }
        i = i + 1;
    }
    proof {
        assert(h.take(entries@.len() as int) =~= h);
    }
    if over || total > MAX_HEADER_SIZE {
        return Err(string_of("Header size exceeds the limit"));
    }
    let mut j: usize = 0;
    while j < entries.len()
        invariant
            h == Seq::new(entries@.len(), |k: int| (entries@[k].0@, entries@[k].1@)),
            h == headers@,
            j <= entries@.len(),
            header_bytes(h) <= MAX_HEADER_SIZE,
            first_fault(h, 0) == first_fault(h, j as nat),
        decreases entries@.len() - j,
    {
        proof {
            assert(h[j as int] == (entries@[j as int].0@, entries@[j as int].1@));
        }
        match check_field(&entries[j].0, &entries[j].1) {
            Some(m) => {
                proof {
                    assert(first_fault(h, j as nat) == Some(m@));
                }
                return Err(m);
            },
            None => {},
        }
        j = j + 1;
    }
    Ok(())
}

/// Checks a body: its size, then that HTML sanitization leaves it unchanged.
pub fn validate_body(body: &[u8]) -> (r: Result<(), String>)
    ensures
        matches_verdict(r, body_verdict(body@)),
{
    if body.len() > MAX_BODY_SIZE {
        return Err(string_of("Body size exceeds the limit"));
    }
    let content = utf8_lossy(body);
    let sanitized = sanitize_html(content.as_str());
    let a = chars_of(content.as_str());
    let b = chars_of(sanitized.as_str());
    if !chars_eq(a.as_slice(), b.as_slice()) {
        return Err(string_of("HTML sanitization failed: potentially harmful content detected"));
    }
    Ok(())
}

/// Checks a request: the URI, then the headers, then the body.
pub fn validate_request(uri: &str, headers: &Headers, body: &[u8]) -> (r: Result<(), String>)
    ensures
        matches_verdict(r, request_verdict(uri@, headers@, body@)),
{
    match validate_uri(uri) {
        Err(e) => {
            return Err(e);
        },
        Ok(()) => {},
    }
    match validate_headers(headers) {
        Err(e) => {
            return Err(e);
        },
        Ok(()) => {},
    }
    validate_body(body)
}

/// Header fields within the size limit are judged field by field in order:
/// the complaint is that of the first faulty field, whatever follows it, and
/// fields without a fault pass.
pub proof fn law_first_faulty_field_reported(h: Seq<Field>, i: int)
    requires
        header_bytes(h) <= MAX_HEADER_SIZE,
    ensures
        0 <= i < h.len() && field_fault(h[i]) is Some && (forall|j: int| 0 <= j < i ==> field_fault(#[trigger] h[j]) is None)
            ==> headers_verdict(h) == field_fault(h[i]),
        (forall|j: int| 0 <= j < h.len() ==> field_fault(#[trigger] h[j]) is None) ==> headers_verdict(h) is None,
{
    if 0 <= i < h.len() && field_fault(h[i]) is Some && (forall|j: int| 0 <= j < i ==> field_fault(#[trigger] h[j]) is None) {
        lemma_first_fault_from(h, 0, i);
    }
    if forall|j: int| 0 <= j < h.len() ==> field_fault(#[trigger] h[j]) is None {
        lemma_no_fault_from(h, 0);
    }
}

proof fn lemma_first_fault_from(h: Seq<Field>, k: nat, i: int)
    requires
        k <= i < h.len(),
        field_fault(h[i]) is Some,
        forall|j: int| 0 <= j < i ==> field_fault(#[trigger] h[j]) is None,
    ensures
        first_fault(h, k) == field_fault(h[i]),
    decreases i - k,
{
    if k < i {
        lemma_first_fault_from(h, k + 1, i);
    }
}

proof fn lemma_no_fault_from(h: Seq<Field>, k: nat)
    requires
        forall|j: int| 0 <= j < h.len() ==> field_fault(#[trigger] h[j]) is None,
    ensures
        first_fault(h, k) is None,
    decreases h.len() - k,
{
    if k < h.len() {
        lemma_no_fault_from(h, k + 1);
    }
}

/// A request is judged by its URI first, then its headers, then its body:
/// a refused URI decides whatever the headers and body are, and a request
/// whose URI and headers pass is judged by its body alone.
pub proof fn law_request_checked_in_order(uri: Seq<char>, h: Seq<Field>, body: Seq<u8>)
    ensures
        !uri_ok(uri) ==> request_verdict(uri, h, body) == Some("Invalid URI detected"@),
        uri_ok(uri) && headers_verdict(h) is Some ==> request_verdict(uri, h, body) == headers_verdict(h),
        uri_ok(uri) && headers_verdict(h) is None ==> request_verdict(uri, h, body) == body_verdict(body),
        body.len() > MAX_BODY_SIZE ==> body_verdict(body) == Some("Body size exceeds the limit"@),
        header_bytes(h) > MAX_HEADER_SIZE ==> headers_verdict(h) == Some("Header size exceeds the limit"@),
{
}

/// A Content-Type or User-Agent value, whatever the case of the name, is
/// held to its own pattern; any other header to the default one.
pub proof fn law_value_patterns(name: Seq<char>)
    ensures
        ascii_lower(name) == "content-type"@ ==> value_pattern(name) == CONTENT_TYPE_PATTERN@,
        ascii_lower(name) == "user-agent"@ ==> value_pattern(name) == USER_AGENT_PATTERN@,
        ascii_lower(name) != "content-type"@ && ascii_lower(name) != "user-agent"@ ==> value_pattern(name)
            == DEFAULT_HEADER_VALUE_PATTERN@,
{
    reveal_strlit("content-type");
    reveal_strlit("user-agent");
    assert("content-type"@ != "user-agent"@) by {
        assert("content-type"@.len() != "user-agent"@.len());
    }
}

} // verus!
