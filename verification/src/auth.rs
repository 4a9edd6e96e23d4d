//! Authentication of requests: HTTP Basic credentials checked against a list
//! of users, and the bearer token that JWT validation reads.
use vstd::prelude::*;
use vstd::utf8::{valid_utf8, decode_utf8};
use crate::headers::{Headers, Field, lookup, is_text, ascii_text, value_to_text};
use crate::text::{chars_of, chars_starts_with, is_prefix, string_from_chars};

verus! {

/// What a valid JSON Web Token claims.
#[derive(Debug, Clone)]
pub struct Claims {
    pub sub: String,
    pub company: String,
    pub exp: usize,
}

/// The bytes that standard Base64 (with padding) decodes `input` to, if it
/// is valid Base64.
pub uninterp spec fn spec_base64_decode(input: Seq<u8>) -> Option<Seq<u8>>;

/// Decodes standard Base64 with `base64::engine::general_purpose::STANDARD`,
/// the engine behind `base64::decode`; an input it refuses gives `None`.
#[verifier::external_body]
fn base64_decode(input: &[u8]) -> (r: Option<Vec<u8>>)
    ensures
        match r {
            Some(v) => spec_base64_decode(input@) == Some(v@),
            None => spec_base64_decode(input@) is None,
        },
{
    match base64::Engine::decode(&base64::engine::general_purpose::STANDARD, input) {
        Ok(v) => Some(v),
        Err(_) => None,
    }
}

/// Reads bytes as UTF-8 text with `String::from_utf8`, which the standard
/// library documents as failing exactly when the bytes are not valid UTF-8.
#[verifier::external_body]
fn utf8_text(bytes: Vec<u8>) -> (r: Option<String>)
    ensures
        match r {
            Some(s) => valid_utf8(bytes@) && s@ == decode_utf8(bytes@),
            None => !valid_utf8(bytes@),
        },
{
    match String::from_utf8(bytes) {
        Ok(s) => Some(s),
        Err(_) => None,
    }
}

/// The position of the first ':' in `s`, or its length when it has none.
pub open spec fn first_colon(s: Seq<char>) -> nat
    decreases s.len(),
{
    if s.len() == 0 {
        0
    } else if s[0] == ':' {
        0
    } else {
        1 + first_colon(s.drop_first())
    }
}

/// Whether the list of users holds `user` with password `password`.
pub open spec fn has_user(users: Seq<(String, String)>, user: Seq<char>, password: Seq<char>) -> bool {
    exists|i: int| 0 <= i < users.len() && (#[trigger] users[i]).0@ == user && users[i].1@ == password
}

/// The verdict on decoded credentials `user:password`.
pub open spec fn credentials_verdict(cred: Seq<char>, users: Seq<(String, String)>) -> Result<(), Seq<char>> {
    let k = first_colon(cred);
    if k == cred.len() {
        Err("Missing password"@)
    } else if has_user(users, cred.take(k as int), cred.skip(k + 1 as int)) {
        Ok(())
    } else {
        Err("Invalid credentials"@)
    }
}

/// The verdict of Basic authentication on a request with header fields `h`.
pub open spec fn basic_verdict(h: Seq<Field>, users: Seq<(String, String)>) -> Result<(), Seq<char>> {
    match lookup(h, "authorization"@) {
        None => Err("Authorization header missing"@),
        Some(v) => if !is_text(v) {
            Err("Invalid header format"@)
        } else if !is_prefix("Basic "@, ascii_text(v)) {
            Err("Invalid authorization scheme"@)
        } else {
            match spec_base64_decode(v.skip(6)) {
                None => Err("Failed to decode base64 credentials"@),
                Some(bytes) => if !valid_utf8(bytes) {
                    Err("Invalid UTF-8 sequence"@)
                } else {
                    credentials_verdict(decode_utf8(bytes), users)
                },
            }
        },
    }
}

/// Whether a result carries exactly the given verdict.
pub open spec fn result_is(r: Result<(), String>, v: Result<(), Seq<char>>) -> bool {
    match v {
        Ok(()) => r is Ok,
        Err(m) => r matches Err(e) && e@ == m,
    }
}

fn owned(s: &str) -> (r: String)
    ensures
        r@ == s@,
{
    s.to_owned()
}

/// Checks decoded credentials `user:password` against the list of users.
pub fn check_credentials(cred: &str, users: &Vec<(String, String)>) -> (r: Result<(), String>)
    ensures
        result_is(r, credentials_verdict(cred@, users@)),
{
    let cs = chars_of(cred);
    let mut k: usize = 0;
    proof {
        assert(cs@.skip(0) =~= cs@);
    }
    while k < cs.len() && cs[k] != ':'
        invariant
            cs@ == cred@,
            k <= cs@.len(),
            first_colon(cs@) == k + first_colon(cs@.skip(k as int)),
        decreases cs@.len() - k,
    {
        proof {
            assert(cs@.skip(k as int).drop_first() =~= cs@.skip(k + 1));
        }
        k = k + 1;
    }
    proof {
        if k < cs@.len() {
            assert(cs@.skip(k as int)[0] == ':');
        }
    }
    if k == cs.len() {
        return Err(owned("Missing password"));
    }
    let user = string_from_chars(vstd::slice::slice_subrange(cs.as_slice(), 0, k));
    let password = string_from_chars(vstd::slice::slice_subrange(cs.as_slice(), k + 1, cs.len()));
    proof {
        assert(user@ =~= cs@.take(k as int));
        assert(password@ =~= cs@.skip(k + 1));
    }
    let mut i: usize = 0;
    while i < users.len()
        invariant
            i <= users@.len(),
            first_colon(cred@) < cred@.len(),
            user@ == cred@.take(first_colon(cred@) as int),
            password@ == cred@.skip(first_colon(cred@) + 1 as int),
            forall|j: int|
                0 <= j < i ==> !((#[trigger] users@[j]).0@ == user@ && users@[j].1@ == password@),
        decreases users@.len() - i,
    {
        let entry = &users[i];
        if crate::text::str_eq(entry.0.as_str(), user.as_str()) && crate::text::str_eq(
            entry.1.as_str(),
            password.as_str(),
        ) {
            proof {
                assert(users@[i as int].0@ == user@ && users@[i as int].1@ == password@);
            }
            return Ok(());
        }
        i = i + 1;
    }
    Err(owned("Invalid credentials"))
}

/// Checks the Basic credentials of a request against a list of users, each a
/// (name, password) pair.
pub fn validate_basic(headers: &Headers, valid_users: &Vec<(String, String)>) -> (r: Result<(), String>)
    ensures
        result_is(r, basic_verdict(headers@, valid_users@)),
{
    let value = match headers.get("authorization") {
        Some(v) => v,
        None => {
            return Err(owned("Authorization header missing"));
        },
    };
    let text = match value_to_text(value.as_slice()) {
        Some(t) => t,
        None => {
            return Err(owned("Invalid header format"));
        },
    };
    let chars = chars_of(text.as_str());
    let scheme = chars_of("Basic ");
    if !chars_starts_with(chars.as_slice(), scheme.as_slice()) {
        return Err(owned("Invalid authorization scheme"));
    }
    proof {
        reveal_strlit("Basic ");
        assert(value@.len() >= 6);
    }
    let encoded = vstd::slice::slice_subrange(value.as_slice(), 6, value.len());
    proof {
        assert(encoded@ =~= value@.skip(6));
    }
    let decoded = match base64_decode(encoded) {
        Some(d) => d,
        None => {
            return Err(owned("Failed to decode base64 credentials"));
        },
    };
    let cred = match utf8_text(decoded) {
        Some(c) => c,
        None => {
            return Err(owned("Invalid UTF-8 sequence"));
        },
    };
    check_credentials(cred.as_str(), valid_users)
}

/// The token that a request with header fields `h` presents after the
/// "Bearer " scheme, or the complaint about its Authorization header.
pub open spec fn bearer_verdict(h: Seq<Field>) -> Result<Seq<char>, Seq<char>> {
    match lookup(h, "authorization"@) {
        None => Err("Authorization header missing"@),
        Some(v) => if !is_text(v) {
            Err("Invalid token format"@)
        } else if !is_prefix("Bearer "@, ascii_text(v)) {
            Err("Invalid authorization scheme"@)
        } else {
            Ok(ascii_text(v).skip(7))
        },
    }
}

/// The token of a request's Authorization header, which must use the
/// "Bearer " scheme: the text after it.
pub fn bearer_token(headers: &Headers) -> (r: Result<String, String>)
    ensures
        match bearer_verdict(headers@) {
            Ok(t) => r matches Ok(s) && s@ == t,
            Err(m) => r matches Err(e) && e@ == m,
        },
{
    let value = match headers.get("authorization") {
        Some(v) => v,
        None => {
            return Err(owned("Authorization header missing"));
        },
    };
    let text = match value_to_text(value.as_slice()) {
        Some(t) => t,
        None => {
            return Err(owned("Invalid token format"));
        },
    };
    let chars = chars_of(text.as_str());
    let scheme = chars_of("Bearer ");
    if !chars_starts_with(chars.as_slice(), scheme.as_slice()) {
        return Err(owned("Invalid authorization scheme"));
    }
    proof {
        reveal_strlit("Bearer ");
    }
    let token = string_from_chars(vstd::slice::slice_subrange(chars.as_slice(), 7, chars.len()));
    proof {
        assert(token@ =~= chars@.skip(7));
    }
    Ok(token)
}

/// The same answer, "Invalid credentials", comes for a user that is not on
/// the list and for a listed user with a wrong password.
pub proof fn law_unknown_user_and_wrong_password_look_alike(
    cred: Seq<char>,
    users: Seq<(String, String)>,
)
    requires
        first_colon(cred) < cred.len(),
        !has_user(users, cred.take(first_colon(cred) as int), cred.skip(first_colon(cred) + 1 as int)),
    ensures
        credentials_verdict(cred, users) == Err::<(), Seq<char>>("Invalid credentials"@),
{
}

/// The first ':' of a user name without one, followed by ':' and a password,
/// is the one after the name.
proof fn lemma_first_colon_after_user(user: Seq<char>, password: Seq<char>)
    requires
        forall|i: int| 0 <= i < user.len() ==> user[i] != ':',
    ensures
        first_colon(user + seq![':'] + password) == user.len(),
    decreases user.len(),
{
    let cred = user + seq![':'] + password;
    if user.len() > 0 {
        lemma_first_colon_after_user(user.drop_first(), password);
        assert(cred.drop_first() =~= user.drop_first() + seq![':'] + password);
    }
}

/// Credentials `user:password`, for a user name without ':', are accepted
/// exactly when the list holds that user with that password, and are
/// otherwise answered "Invalid credentials"; credentials without ':' lack a
/// password.
pub proof fn law_credentials(user: Seq<char>, password: Seq<char>, users: Seq<(String, String)>, cred: Seq<char>)
    requires
        forall|i: int| 0 <= i < user.len() ==> user[i] != ':',
    ensures
        (exists|i: int| 0 <= i < users.len() && (#[trigger] users[i]).0@ == user && users[i].1@ == password)
            ==> credentials_verdict(user + seq![':'] + password, users) == Ok::<(), Seq<char>>(()),
        !(exists|i: int| 0 <= i < users.len() && (#[trigger] users[i]).0@ == user && users[i].1@ == password)
            ==> credentials_verdict(user + seq![':'] + password, users) == Err::<(), Seq<char>>(
            "Invalid credentials"@,
        ),
        (forall|i: int| 0 <= i < cred.len() ==> cred[i] != ':') ==> credentials_verdict(cred, users) == Err::<
            (),
            Seq<char>,
        >("Missing password"@),
{
    let c = user + seq![':'] + password;
    lemma_first_colon_after_user(user, password);
    assert(c.take(user.len() as int) =~= user);
    assert(c.skip(user.len() + 1 as int) =~= password);
    if forall|i: int| 0 <= i < cred.len() ==> cred[i] != ':' {
        lemma_no_colon(cred);
    }
}

proof fn lemma_no_colon(s: Seq<char>)
    requires
        forall|i: int| 0 <= i < s.len() ==> s[i] != ':',
    ensures
        first_colon(s) == s.len(),
    decreases s.len(),
{
    if s.len() > 0 {
        lemma_no_colon(s.drop_first());
    }
}

/// A request whose Authorization header reads "Bearer " followed by a token
/// presents that token; a text header with any other start is refused for
/// its scheme, and a missing header is reported as missing.
pub proof fn law_bearer_token(h: Seq<Field>, token: Seq<char>)
    ensures
        lookup(h, "authorization"@) is Some && is_text(lookup(h, "authorization"@)->0) && ascii_text(
            lookup(h, "authorization"@)->0,
        ) == "Bearer "@ + token ==> bearer_verdict(h) == Ok::<Seq<char>, Seq<char>>(token),
        lookup(h, "authorization"@) is Some && is_text(lookup(h, "authorization"@)->0) && !is_prefix(
            "Bearer "@,
            ascii_text(lookup(h, "authorization"@)->0),
        ) ==> bearer_verdict(h) == Err::<Seq<char>, Seq<char>>("Invalid authorization scheme"@),
        lookup(h, "authorization"@) is None ==> bearer_verdict(h) == Err::<Seq<char>, Seq<char>>(
            "Authorization header missing"@,
        ),
{
    reveal_strlit("Bearer ");
    let b = "Bearer "@;
    assert((b + token).subrange(0, b.len() as int) =~= b);
    assert((b + token).skip(7) =~= token);
}

} // verus!
