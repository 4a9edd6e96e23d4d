//! Header transformations applied to requests and responses: set, remove or
//! append to a header.
use vstd::prelude::*;
use crate::headers::{
    Headers, Field, inserted, removed, lookup, law_get_after_insert, law_get_after_remove, is_text, ascii_text, value_text_ok,
    spec_parse_header_name, parse_header_name, value_to_text, text_bytes, text_is_value,
};
use crate::text::{chars_of, chars_eq};
use vstd::utf8::encode_utf8;
use vstd::string::*;

verus! {

#[derive(Debug, Clone)]
pub struct Transform {
    pub transform_type: String,
    pub name: String,
    pub value: Option<String>,
    pub operation: String,
}

/// The transformation's value, or nothing.
pub open spec fn value_or_empty(t: Transform) -> Seq<char> {
    match t.value {
        Some(v) => v@,
        None => Seq::empty(),
    }
}

/// The bytes stored for a value: its UTF-8 bytes when it may be a header
/// value, else nothing.
pub open spec fn stored(v: Seq<char>) -> Seq<u8> {
    if value_text_ok(v) {
        encode_utf8(v)
    } else {
        Seq::empty()
    }
}

/// The text that appending gives: the current value followed by the
/// transformation's value, when the current value reads as text; else the
/// transformation's value alone.
pub open spec fn appended(h: Seq<Field>, n: Seq<char>, t: Transform) -> Seq<char> {
    match lookup(h, n) {
        Some(cur) => if is_text(cur) {
            ascii_text(cur) + value_or_empty(t)
        } else {
            value_or_empty(t)
        },
        None => value_or_empty(t),
    }
}

/// The fields after one transformation. A name that is not a valid header
/// name, or an unknown operation, changes nothing.
pub open spec fn applied(h: Seq<Field>, t: Transform) -> Seq<Field> {
    match spec_parse_header_name(t.name@) {
        None => h,
        Some(n) => {
            if t.operation@ == "Set"@ {
                inserted(h, n, stored(value_or_empty(t)))
            } else if t.operation@ == "Remove"@ {
                removed(h, n)
            } else if t.operation@ == "Append"@ {
                inserted(h, n, stored(appended(h, n, t)))
            } else {
                h
            }
        },
    }
}

/// The fields after the transformations, in order.
pub open spec fn all_applied(h: Seq<Field>, ts: Seq<Transform>) -> Seq<Field>
    decreases ts.len(),
{
    if ts.len() == 0 {
        h
    } else {
        applied(all_applied(h, ts.drop_last()), ts.last())
    }
}

/// The bytes to store for a value.
fn stored_bytes(v: &str) -> (b: Vec<u8>)
    ensures
        b@ == stored(v@),
{
    if text_is_value(v) {
        text_bytes(v)
    } else {
        Vec::new()
    }
}

fn is_op(op: &[char], lit: &str) -> (r: bool)
    ensures
        r == (op@ == lit@),
{
    let l = chars_of(lit);
    chars_eq(op, l.as_slice())
}

impl Transform {
    /// Applies one transformation.
    fn apply_one(headers: &mut Headers, t: &Transform)
        ensures
            final(headers)@ == applied(old(headers)@, *t),
    {
        match parse_header_name(t.name.as_str()) {
            None => {},
            Some(name) => {
                let op = chars_of(t.operation.as_str());
                let value: &str = match &t.value {
                    Some(v) => v.as_str(),
                    None => "",
                };
                proof {
                    reveal_strlit("");
                    assert(value@ == value_or_empty(*t));
                }
                if is_op(op.as_slice(), "Set") {
                    headers.insert(name.as_str(), stored_bytes(value));
                } else if is_op(op.as_slice(), "Remove") {
                    headers.remove(name.as_str());
                } else if is_op(op.as_slice(), "Append") {
                    let new_value: String = match headers.get(name.as_str()) {
                        Some(cur) => match value_to_text(cur.as_slice()) {
                            Some(text) => text.concat(value),
                            None => value.to_owned(),
                        },
                        None => value.to_owned(),
                    };
                    proof {
                        assert(new_value@ == appended(old(headers)@, name@, *t));
                    }
                    headers.insert(name.as_str(), stored_bytes(new_value.as_str()));
                }
            },
        }
    }

    /// Applies the transformations to a request's header fields, in order.
    pub fn apply_request_transforms(headers: &mut Headers, transforms: &[Transform])
        ensures
            final(headers)@ == all_applied(old(headers)@, transforms@),
    {
        Self::apply_header_transforms(headers, transforms);
    }

    /// Applies the transformations to a response's header fields, in order.
    pub fn apply_response_transforms(headers: &mut Headers, transforms: &[Transform])
        ensures
            final(headers)@ == all_applied(old(headers)@, transforms@),
    {
        Self::apply_header_transforms(headers, transforms);
    }

    /// Applies the transformations to the headers, in order.
    pub fn apply_header_transforms(headers: &mut Headers, transforms: &[Transform])
        ensures
            final(headers)@ == all_applied(old(headers)@, transforms@),
    {
        let ghost start = headers@;
        let mut i: usize = 0;
        while i < transforms.len()
            invariant
                i <= transforms@.len(),
                headers@ == all_applied(start, transforms@.take(i as int)),
            decreases transforms@.len() - i,
        {
            proof {
                assert(transforms@.take(i + 1).drop_last() =~= transforms@.take(i as int));
                assert(transforms@.take(i + 1).last() == transforms@[i as int]);
            }
            Self::apply_one(headers, &transforms[i]);
            i = i + 1;
        }
        proof {
            assert(transforms@.take(transforms@.len() as int) =~= transforms@);
        }
    }
}

/// A Set with a valid header name gives that header exactly the
/// transformation's value, whatever it held before; Remove leaves no value
/// under the name; Append gives the current text followed by the
/// transformation's value. Every other header keeps its value, and a name
/// that is not a valid header name changes nothing.
pub proof fn law_transform_effects(h: Seq<Field>, t: Transform, n: Seq<char>, other: Seq<char>)
    requires
        spec_parse_header_name(t.name@) == Some(n),
    ensures
        t.operation@ == "Set"@ && value_text_ok(value_or_empty(t)) ==> lookup(applied(h, t), n) == Some(
            encode_utf8(value_or_empty(t)),
        ),
        t.operation@ == "Remove"@ ==> lookup(applied(h, t), n) is None,
        t.operation@ == "Append"@ && lookup(h, n) is None && value_text_ok(value_or_empty(t)) ==> lookup(
            applied(h, t),
            n,
        ) == Some(encode_utf8(value_or_empty(t))),
        t.operation@ == "Append"@ && lookup(h, n) is Some && is_text(lookup(h, n)->0) && value_text_ok(
            ascii_text(lookup(h, n)->0) + value_or_empty(t),
        ) ==> lookup(applied(h, t), n) == Some(encode_utf8(ascii_text(lookup(h, n)->0) + value_or_empty(t))),
        other != n ==> lookup(applied(h, t), other) == lookup(h, other),
        t.operation@ != "Set"@ && t.operation@ != "Remove"@ && t.operation@ != "Append"@ ==> applied(h, t)
            == h,
{
    reveal_strlit("Set");
    reveal_strlit("Remove");
    reveal_strlit("Append");
    assert("Remove"@ != "Set"@) by {
        assert("Remove"@.len() != "Set"@.len());
    }
    assert("Append"@ != "Set"@) by {
        assert("Append"@.len() != "Set"@.len());
    }
    assert("Append"@ != "Remove"@) by {
        assert("Append"@[0] != "Remove"@[0]);
    }
    law_get_after_insert(h, n, stored(value_or_empty(t)), other);
    law_get_after_insert(h, n, stored(appended(h, n, t)), other);
    law_get_after_remove(h, n, other);
}

/// A transformation whose name is not a valid header name leaves the fields
/// as they were.
pub proof fn law_invalid_name_changes_nothing(h: Seq<Field>, t: Transform)
    requires
        spec_parse_header_name(t.name@) is None,
    ensures
        applied(h, t) == h,
{
}

/// The transformations apply one after the other: the last one acts on what
/// the ones before it left.
pub proof fn law_transforms_in_order(h: Seq<Field>, ts: Seq<Transform>, t: Transform)
    ensures
        all_applied(h, ts.push(t)) == applied(all_applied(h, ts), t),
        all_applied(h, Seq::<Transform>::empty()) == h,
{
    assert(ts.push(t).drop_last() =~= ts);
}

} // verus!
