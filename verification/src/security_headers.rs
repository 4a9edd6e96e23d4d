//! Security headers added to responses.
use vstd::prelude::*;
use crate::headers::{Headers, Field, inserted, lookup, law_get_after_insert, text_bytes, value_text_ok, text_is_value};
use vstd::string::*;
use vstd::utf8::encode_utf8;

verus! {

pub const PERMISSIONS_POLICY: &'static str = "permissions-policy";
pub const FEATURE_POLICY: &'static str = "feature-policy";

pub const DEFAULT_CSP: &'static str = "default-src 'self'; script-src 'self'; object-src 'none'; style-src 'self'; img-src 'self'; frame-ancestors 'none'; base-uri 'self'; form-action 'self'";
pub const DEFAULT_X_XSS_PROTECTION: &'static str = "1; mode=block";
pub const DEFAULT_REFERRER_POLICY: &'static str = "no-referrer";

#[derive(Debug, Clone)]
pub struct SecurityHeadersConfig {
    pub strict_transport_security: Option<String>,
    pub x_content_type_options: Option<String>,
    pub x_frame_options: Option<String>,
    pub content_security_policy: Option<String>,
    pub x_xss_protection: Option<String>,
    pub referrer_policy: Option<String>,
    pub permissions_policy: Option<String>,
    pub feature_policy: Option<String>,
}

/// Whether an optional value may be a header value.
pub open spec fn opt_value_ok(o: Option<String>) -> bool {
    match o {
        Some(v) => value_text_ok(v@),
        None => true,
    }
}

/// Whether every value that the configuration gives may be a header value.
pub open spec fn config_ok(c: SecurityHeadersConfig) -> bool {
    &&& opt_value_ok(c.strict_transport_security)
    &&& opt_value_ok(c.x_content_type_options)
    &&& opt_value_ok(c.x_frame_options)
    &&& opt_value_ok(c.content_security_policy)
    &&& opt_value_ok(c.x_xss_protection)
    &&& opt_value_ok(c.referrer_policy)
    &&& opt_value_ok(c.permissions_policy)
    &&& opt_value_ok(c.feature_policy)
}

/// The fields with `name` set to the value, when there is one.
pub open spec fn with_optional(h: Seq<Field>, name: Seq<char>, o: Option<String>) -> Seq<Field> {
    match o {
        Some(v) => inserted(h, name, encode_utf8(v@)),
        None => h,
    }
}

/// The fields with `name` set to the value, or to `default` when there is none.
pub open spec fn with_default(
    h: Seq<Field>,
    name: Seq<char>,
    o: Option<String>,
    default: Seq<char>,
) -> Seq<Field> {
    match o {
        Some(v) => inserted(h, name, encode_utf8(v@)),
        None => inserted(h, name, encode_utf8(default)),
    }
}

/// The fields after adding the security headers of `c`: the policy, XSS and
/// referrer headers always (with defaults), the others when configured.
pub open spec fn secured(h: Seq<Field>, c: SecurityHeadersConfig) -> Seq<Field> {
    let h1 = with_optional(h, "strict-transport-security"@, c.strict_transport_security);
    let h2 = with_optional(h1, "x-content-type-options"@, c.x_content_type_options);
    let h3 = with_optional(h2, "x-frame-options"@, c.x_frame_options);
    let h4 = with_default(h3, "content-security-policy"@, c.content_security_policy, DEFAULT_CSP@);
    let h5 = with_default(h4, "x-xss-protection"@, c.x_xss_protection, DEFAULT_X_XSS_PROTECTION@);
    let h6 = with_default(h5, "referrer-policy"@, c.referrer_policy, DEFAULT_REFERRER_POLICY@);
    let h7 = with_optional(h6, PERMISSIONS_POLICY@, c.permissions_policy);
    with_optional(h7, FEATURE_POLICY@, c.feature_policy)
}

/// Sets `name` to the value, when there is one.
fn insert_header(headers: &mut Headers, name: &str, value: &Option<String>)
    ensures
        final(headers)@ == with_optional(old(headers)@, name@, *value),
{
    match value {
        Some(v) => headers.insert(name, text_bytes(v.as_str())),
        None => {},
    }
}

/// Sets `name` to the value, or to `default` when there is none.
fn insert_with_default(headers: &mut Headers, name: &str, value: &Option<String>, default: &str)
    ensures
        final(headers)@ == with_default(old(headers)@, name@, *value, default@),
{
    match value {
        Some(v) => headers.insert(name, text_bytes(v.as_str())),
        None => headers.insert(name, text_bytes(default)),
    }
}

/// Adds the configured security headers; without a configuration the headers
/// stay as they are. Every configured value must be a valid header value.
pub fn apply_security_headers(headers: &mut Headers, security_headers_config: &Option<SecurityHeadersConfig>)
    requires
        *security_headers_config matches Some(c) ==> config_ok(c),
    ensures
        final(headers)@ == match *security_headers_config {
            Some(c) => secured(old(headers)@, c),
            None => old(headers)@,
        },
{
    match security_headers_config {
        Some(config) => {
            insert_header(headers, "strict-transport-security", &config.strict_transport_security);
            insert_header(headers, "x-content-type-options", &config.x_content_type_options);
            insert_header(headers, "x-frame-options", &config.x_frame_options);
            insert_with_default(headers, "content-security-policy", &config.content_security_policy, DEFAULT_CSP);
            insert_with_default(headers, "x-xss-protection", &config.x_xss_protection, DEFAULT_X_XSS_PROTECTION);
            insert_with_default(headers, "referrer-policy", &config.referrer_policy, DEFAULT_REFERRER_POLICY);
            insert_header(headers, PERMISSIONS_POLICY, &config.permissions_policy);
            insert_header(headers, FEATURE_POLICY, &config.feature_policy);
        },
        None => {},
    }
}

/// Whether every value of the configuration may be a header value, which
/// `apply_security_headers` needs.
pub fn security_config_is_valid(c: &SecurityHeadersConfig) -> (r: bool)
    ensures
        r == config_ok(*c),
{
    opt_is_valid(&c.strict_transport_security) && opt_is_valid(&c.x_content_type_options)
        && opt_is_valid(&c.x_frame_options) && opt_is_valid(&c.content_security_policy)
        && opt_is_valid(&c.x_xss_protection) && opt_is_valid(&c.referrer_policy)
        && opt_is_valid(&c.permissions_policy) && opt_is_valid(&c.feature_policy)
}

fn opt_is_valid(o: &Option<String>) -> (r: bool)
    ensures
        r == opt_value_ok(*o),
{
    match o {
        Some(v) => text_is_value(v.as_str()),
        None => true,
    }
}

/// What a lookup of `other` gives after `name` is set to the value, or to
/// `default` when `use_default` holds and there is no value.
proof fn lemma_set_lookup(
    h: Seq<Field>,
    name: Seq<char>,
    o: Option<String>,
    default: Seq<char>,
    use_default: bool,
    other: Seq<char>,
)
    ensures
        !use_default && other == name ==> lookup(with_optional(h, name, o), other) == match o {
            Some(v) => Some(encode_utf8(v@)),
            None => lookup(h, name),
        },
        !use_default && other != name ==> lookup(with_optional(h, name, o), other) == lookup(h, other),
        use_default && other == name ==> lookup(with_default(h, name, o, default), other) == Some(
            encode_utf8(
                match o {
                    Some(v) => v@,
                    None => default,
                },
            ),
        ),
        use_default && other != name ==> lookup(with_default(h, name, o, default), other) == lookup(
            h,
            other,
        ),
{
    match o {
        Some(v) => law_get_after_insert(h, name, encode_utf8(v@), other),
        None => law_get_after_insert(h, name, encode_utf8(default), other),
    }
}

/// Each security header that the configuration gives a value gets that
/// value; the policy, XSS and referrer headers get their defaults when it
/// gives none; a header it gives no value keeps the one it had; every other
/// header is left as it was.
pub proof fn law_security_headers(h: Seq<Field>, c: SecurityHeadersConfig, other: Seq<char>)
    ensures
        lookup(secured(h, c), "strict-transport-security"@) == match c.strict_transport_security {
            Some(v) => Some(encode_utf8(v@)),
            None => lookup(h, "strict-transport-security"@),
        },
        lookup(secured(h, c), "x-content-type-options"@) == match c.x_content_type_options {
            Some(v) => Some(encode_utf8(v@)),
            None => lookup(h, "x-content-type-options"@),
        },
        lookup(secured(h, c), "x-frame-options"@) == match c.x_frame_options {
            Some(v) => Some(encode_utf8(v@)),
            None => lookup(h, "x-frame-options"@),
        },
        lookup(secured(h, c), "content-security-policy"@) == Some(encode_utf8(match c.content_security_policy {
            Some(v) => v@,
            None => DEFAULT_CSP@,
        })),
        lookup(secured(h, c), "x-xss-protection"@) == Some(encode_utf8(match c.x_xss_protection {
            Some(v) => v@,
            None => DEFAULT_X_XSS_PROTECTION@,
        })),
        lookup(secured(h, c), "referrer-policy"@) == Some(encode_utf8(match c.referrer_policy {
            Some(v) => v@,
            None => DEFAULT_REFERRER_POLICY@,
        })),
        lookup(secured(h, c), "permissions-policy"@) == match c.permissions_policy {
            Some(v) => Some(encode_utf8(v@)),
            None => lookup(h, "permissions-policy"@),
        },
        lookup(secured(h, c), "feature-policy"@) == match c.feature_policy {
            Some(v) => Some(encode_utf8(v@)),
            None => lookup(h, "feature-policy"@),
        },
        other != "strict-transport-security"@ && other != "x-content-type-options"@ && other != "x-frame-options"@ && other != "content-security-policy"@ && other != "x-xss-protection"@ && other != "referrer-policy"@ && other != "permissions-policy"@ && other != "feature-policy"@ ==> lookup(secured(h, c), other) == lookup(h, other),
{
    reveal_strlit("strict-transport-security");
    reveal_strlit("x-content-type-options");
    reveal_strlit("x-frame-options");
    reveal_strlit("content-security-policy");
    reveal_strlit("x-xss-protection");
    reveal_strlit("referrer-policy");
    reveal_strlit("permissions-policy");
    reveal_strlit("feature-policy");
    assert("x-content-type-options"@ != "strict-transport-security"@) by {
        assert("x-content-type-options"@.len() != "strict-transport-security"@.len());
    }
    assert("x-frame-options"@ != "strict-transport-security"@) by {
        assert("x-frame-options"@.len() != "strict-transport-security"@.len());
    }
    assert("x-frame-options"@ != "x-content-type-options"@) by {
        assert("x-frame-options"@.len() != "x-content-type-options"@.len());
    }
    assert("content-security-policy"@ != "strict-transport-security"@) by {
        assert("content-security-policy"@.len() != "strict-transport-security"@.len());
    }
    assert("content-security-policy"@ != "x-content-type-options"@) by {
        assert("content-security-policy"@.len() != "x-content-type-options"@.len());
    }
    assert("content-security-policy"@ != "x-frame-options"@) by {
        assert("content-security-policy"@.len() != "x-frame-options"@.len());
    }
    assert("x-xss-protection"@ != "strict-transport-security"@) by {
        assert("x-xss-protection"@.len() != "strict-transport-security"@.len());
    }
    assert("x-xss-protection"@ != "x-content-type-options"@) by {
        assert("x-xss-protection"@.len() != "x-content-type-options"@.len());
    }
    assert("x-xss-protection"@ != "x-frame-options"@) by {
        assert("x-xss-protection"@.len() != "x-frame-options"@.len());
    }
    assert("x-xss-protection"@ != "content-security-policy"@) by {
        assert("x-xss-protection"@.len() != "content-security-policy"@.len());
    }
    assert("referrer-policy"@ != "strict-transport-security"@) by {
        assert("referrer-policy"@.len() != "strict-transport-security"@.len());
    }
    assert("referrer-policy"@ != "x-content-type-options"@) by {
        assert("referrer-policy"@.len() != "x-content-type-options"@.len());
    }
    assert("referrer-policy"@ != "x-frame-options"@) by {
        assert("referrer-policy"@[0] != "x-frame-options"@[0]);
    }
    assert("referrer-policy"@ != "content-security-policy"@) by {
        assert("referrer-policy"@.len() != "content-security-policy"@.len());
    }
    assert("referrer-policy"@ != "x-xss-protection"@) by {
        assert("referrer-policy"@.len() != "x-xss-protection"@.len());
    }
    assert("permissions-policy"@ != "strict-transport-security"@) by {
        assert("permissions-policy"@.len() != "strict-transport-security"@.len());
    }
    assert("permissions-policy"@ != "x-content-type-options"@) by {
        assert("permissions-policy"@.len() != "x-content-type-options"@.len());
    }
    assert("permissions-policy"@ != "x-frame-options"@) by {
        assert("permissions-policy"@.len() != "x-frame-options"@.len());
    }
    assert("permissions-policy"@ != "content-security-policy"@) by {
        assert("permissions-policy"@.len() != "content-security-policy"@.len());
    }
    assert("permissions-policy"@ != "x-xss-protection"@) by {
        assert("permissions-policy"@.len() != "x-xss-protection"@.len());
    }
    assert("permissions-policy"@ != "referrer-policy"@) by {
        assert("permissions-policy"@.len() != "referrer-policy"@.len());
    }
    assert("feature-policy"@ != "strict-transport-security"@) by {
        assert("feature-policy"@.len() != "strict-transport-security"@.len());
    }
    assert("feature-policy"@ != "x-content-type-options"@) by {
        assert("feature-policy"@.len() != "x-content-type-options"@.len());
    }
    assert("feature-policy"@ != "x-frame-options"@) by {
        assert("feature-policy"@.len() != "x-frame-options"@.len());
    }
    assert("feature-policy"@ != "content-security-policy"@) by {
        assert("feature-policy"@.len() != "content-security-policy"@.len());
    }
    assert("feature-policy"@ != "x-xss-protection"@) by {
        assert("feature-policy"@.len() != "x-xss-protection"@.len());
    }
    assert("feature-policy"@ != "referrer-policy"@) by {
        assert("feature-policy"@.len() != "referrer-policy"@.len());
    }
    assert("feature-policy"@ != "permissions-policy"@) by {
        assert("feature-policy"@.len() != "permissions-policy"@.len());
    }
    assert(PERMISSIONS_POLICY@ == "permissions-policy"@);
    assert(FEATURE_POLICY@ == "feature-policy"@);
    let h1 = with_optional(h, "strict-transport-security"@, c.strict_transport_security);
    lemma_set_lookup(h, "strict-transport-security"@, c.strict_transport_security, Seq::empty(), false, "strict-transport-security"@);
    lemma_set_lookup(h, "strict-transport-security"@, c.strict_transport_security, Seq::empty(), false, "x-content-type-options"@);
    lemma_set_lookup(h, "strict-transport-security"@, c.strict_transport_security, Seq::empty(), false, "x-frame-options"@);
    lemma_set_lookup(h, "strict-transport-security"@, c.strict_transport_security, Seq::empty(), false, "content-security-policy"@);
    lemma_set_lookup(h, "strict-transport-security"@, c.strict_transport_security, Seq::empty(), false, "x-xss-protection"@);
    lemma_set_lookup(h, "strict-transport-security"@, c.strict_transport_security, Seq::empty(), false, "referrer-policy"@);
    lemma_set_lookup(h, "strict-transport-security"@, c.strict_transport_security, Seq::empty(), false, "permissions-policy"@);
    lemma_set_lookup(h, "strict-transport-security"@, c.strict_transport_security, Seq::empty(), false, "feature-policy"@);
    lemma_set_lookup(h, "strict-transport-security"@, c.strict_transport_security, Seq::empty(), false, other);
    let h2 = with_optional(h1, "x-content-type-options"@, c.x_content_type_options);
    lemma_set_lookup(h1, "x-content-type-options"@, c.x_content_type_options, Seq::empty(), false, "strict-transport-security"@);
    lemma_set_lookup(h1, "x-content-type-options"@, c.x_content_type_options, Seq::empty(), false, "x-content-type-options"@);
    lemma_set_lookup(h1, "x-content-type-options"@, c.x_content_type_options, Seq::empty(), false, "x-frame-options"@);
    lemma_set_lookup(h1, "x-content-type-options"@, c.x_content_type_options, Seq::empty(), false, "content-security-policy"@);
    lemma_set_lookup(h1, "x-content-type-options"@, c.x_content_type_options, Seq::empty(), false, "x-xss-protection"@);
    lemma_set_lookup(h1, "x-content-type-options"@, c.x_content_type_options, Seq::empty(), false, "referrer-policy"@);
    lemma_set_lookup(h1, "x-content-type-options"@, c.x_content_type_options, Seq::empty(), false, "permissions-policy"@);
    lemma_set_lookup(h1, "x-content-type-options"@, c.x_content_type_options, Seq::empty(), false, "feature-policy"@);
    lemma_set_lookup(h1, "x-content-type-options"@, c.x_content_type_options, Seq::empty(), false, other);
    let h3 = with_optional(h2, "x-frame-options"@, c.x_frame_options);
    lemma_set_lookup(h2, "x-frame-options"@, c.x_frame_options, Seq::empty(), false, "strict-transport-security"@);
    lemma_set_lookup(h2, "x-frame-options"@, c.x_frame_options, Seq::empty(), false, "x-content-type-options"@);
    lemma_set_lookup(h2, "x-frame-options"@, c.x_frame_options, Seq::empty(), false, "x-frame-options"@);
    lemma_set_lookup(h2, "x-frame-options"@, c.x_frame_options, Seq::empty(), false, "content-security-policy"@);
    lemma_set_lookup(h2, "x-frame-options"@, c.x_frame_options, Seq::empty(), false, "x-xss-protection"@);
    lemma_set_lookup(h2, "x-frame-options"@, c.x_frame_options, Seq::empty(), false, "referrer-policy"@);
    lemma_set_lookup(h2, "x-frame-options"@, c.x_frame_options, Seq::empty(), false, "permissions-policy"@);
    lemma_set_lookup(h2, "x-frame-options"@, c.x_frame_options, Seq::empty(), false, "feature-policy"@);
    lemma_set_lookup(h2, "x-frame-options"@, c.x_frame_options, Seq::empty(), false, other);
    let h4 = with_default(h3, "content-security-policy"@, c.content_security_policy, DEFAULT_CSP@);
    lemma_set_lookup(h3, "content-security-policy"@, c.content_security_policy, DEFAULT_CSP@, true, "strict-transport-security"@);
    lemma_set_lookup(h3, "content-security-policy"@, c.content_security_policy, DEFAULT_CSP@, true, "x-content-type-options"@);
    lemma_set_lookup(h3, "content-security-policy"@, c.content_security_policy, DEFAULT_CSP@, true, "x-frame-options"@);
    lemma_set_lookup(h3, "content-security-policy"@, c.content_security_policy, DEFAULT_CSP@, true, "content-security-policy"@);
    lemma_set_lookup(h3, "content-security-policy"@, c.content_security_policy, DEFAULT_CSP@, true, "x-xss-protection"@);
    lemma_set_lookup(h3, "content-security-policy"@, c.content_security_policy, DEFAULT_CSP@, true, "referrer-policy"@);
    lemma_set_lookup(h3, "content-security-policy"@, c.content_security_policy, DEFAULT_CSP@, true, "permissions-policy"@);
    lemma_set_lookup(h3, "content-security-policy"@, c.content_security_policy, DEFAULT_CSP@, true, "feature-policy"@);
    lemma_set_lookup(h3, "content-security-policy"@, c.content_security_policy, DEFAULT_CSP@, true, other);
    let h5 = with_default(h4, "x-xss-protection"@, c.x_xss_protection, DEFAULT_X_XSS_PROTECTION@);
    lemma_set_lookup(h4, "x-xss-protection"@, c.x_xss_protection, DEFAULT_X_XSS_PROTECTION@, true, "strict-transport-security"@);
    lemma_set_lookup(h4, "x-xss-protection"@, c.x_xss_protection, DEFAULT_X_XSS_PROTECTION@, true, "x-content-type-options"@);
    lemma_set_lookup(h4, "x-xss-protection"@, c.x_xss_protection, DEFAULT_X_XSS_PROTECTION@, true, "x-frame-options"@);
    lemma_set_lookup(h4, "x-xss-protection"@, c.x_xss_protection, DEFAULT_X_XSS_PROTECTION@, true, "content-security-policy"@);
    lemma_set_lookup(h4, "x-xss-protection"@, c.x_xss_protection, DEFAULT_X_XSS_PROTECTION@, true, "x-xss-protection"@);
    lemma_set_lookup(h4, "x-xss-protection"@, c.x_xss_protection, DEFAULT_X_XSS_PROTECTION@, true, "referrer-policy"@);
    lemma_set_lookup(h4, "x-xss-protection"@, c.x_xss_protection, DEFAULT_X_XSS_PROTECTION@, true, "permissions-policy"@);
    lemma_set_lookup(h4, "x-xss-protection"@, c.x_xss_protection, DEFAULT_X_XSS_PROTECTION@, true, "feature-policy"@);
    lemma_set_lookup(h4, "x-xss-protection"@, c.x_xss_protection, DEFAULT_X_XSS_PROTECTION@, true, other);
    let h6 = with_default(h5, "referrer-policy"@, c.referrer_policy, DEFAULT_REFERRER_POLICY@);
    lemma_set_lookup(h5, "referrer-policy"@, c.referrer_policy, DEFAULT_REFERRER_POLICY@, true, "strict-transport-security"@);
    lemma_set_lookup(h5, "referrer-policy"@, c.referrer_policy, DEFAULT_REFERRER_POLICY@, true, "x-content-type-options"@);
    lemma_set_lookup(h5, "referrer-policy"@, c.referrer_policy, DEFAULT_REFERRER_POLICY@, true, "x-frame-options"@);
    lemma_set_lookup(h5, "referrer-policy"@, c.referrer_policy, DEFAULT_REFERRER_POLICY@, true, "content-security-policy"@);
    lemma_set_lookup(h5, "referrer-policy"@, c.referrer_policy, DEFAULT_REFERRER_POLICY@, true, "x-xss-protection"@);
    lemma_set_lookup(h5, "referrer-policy"@, c.referrer_policy, DEFAULT_REFERRER_POLICY@, true, "referrer-policy"@);
    lemma_set_lookup(h5, "referrer-policy"@, c.referrer_policy, DEFAULT_REFERRER_POLICY@, true, "permissions-policy"@);
    lemma_set_lookup(h5, "referrer-policy"@, c.referrer_policy, DEFAULT_REFERRER_POLICY@, true, "feature-policy"@);
    lemma_set_lookup(h5, "referrer-policy"@, c.referrer_policy, DEFAULT_REFERRER_POLICY@, true, other);
    let h7 = with_optional(h6, PERMISSIONS_POLICY@, c.permissions_policy);
    lemma_set_lookup(h6, PERMISSIONS_POLICY@, c.permissions_policy, Seq::empty(), false, "strict-transport-security"@);
    lemma_set_lookup(h6, PERMISSIONS_POLICY@, c.permissions_policy, Seq::empty(), false, "x-content-type-options"@);
    lemma_set_lookup(h6, PERMISSIONS_POLICY@, c.permissions_policy, Seq::empty(), false, "x-frame-options"@);
    lemma_set_lookup(h6, PERMISSIONS_POLICY@, c.permissions_policy, Seq::empty(), false, "content-security-policy"@);
    lemma_set_lookup(h6, PERMISSIONS_POLICY@, c.permissions_policy, Seq::empty(), false, "x-xss-protection"@);
    lemma_set_lookup(h6, PERMISSIONS_POLICY@, c.permissions_policy, Seq::empty(), false, "referrer-policy"@);
    lemma_set_lookup(h6, PERMISSIONS_POLICY@, c.permissions_policy, Seq::empty(), false, "permissions-policy"@);
    lemma_set_lookup(h6, PERMISSIONS_POLICY@, c.permissions_policy, Seq::empty(), false, "feature-policy"@);
    lemma_set_lookup(h6, PERMISSIONS_POLICY@, c.permissions_policy, Seq::empty(), false, other);
    let h8 = with_optional(h7, FEATURE_POLICY@, c.feature_policy);
    lemma_set_lookup(h7, FEATURE_POLICY@, c.feature_policy, Seq::empty(), false, "strict-transport-security"@);
    lemma_set_lookup(h7, FEATURE_POLICY@, c.feature_policy, Seq::empty(), false, "x-content-type-options"@);
    lemma_set_lookup(h7, FEATURE_POLICY@, c.feature_policy, Seq::empty(), false, "x-frame-options"@);
    lemma_set_lookup(h7, FEATURE_POLICY@, c.feature_policy, Seq::empty(), false, "content-security-policy"@);
    lemma_set_lookup(h7, FEATURE_POLICY@, c.feature_policy, Seq::empty(), false, "x-xss-protection"@);
    lemma_set_lookup(h7, FEATURE_POLICY@, c.feature_policy, Seq::empty(), false, "referrer-policy"@);
    lemma_set_lookup(h7, FEATURE_POLICY@, c.feature_policy, Seq::empty(), false, "permissions-policy"@);
    lemma_set_lookup(h7, FEATURE_POLICY@, c.feature_policy, Seq::empty(), false, "feature-policy"@);
    lemma_set_lookup(h7, FEATURE_POLICY@, c.feature_policy, Seq::empty(), false, other);
    assert(secured(h, c) == h8);
}

} // verus!
