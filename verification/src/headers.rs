//! HTTP header fields as the library sees them: an ordered list of
//! (name, value) pairs, names as text and values as bytes. Names are kept as
//! given; fields read from an HTTP message carry the lower-case names that
//! HTTP's name type gives them, and lookups compare names exactly. Inserting
//! a name replaces all of its values in the place of the first one; removing
//! a name drops all of its values.
use vstd::prelude::*;
use crate::text::{string_from_chars, ascii_lower};

verus! {

/// One header field: a name and the bytes of its value.
pub type Field = (Seq<char>, Seq<u8>);

#[derive(Debug)]
pub struct Headers {
    entries: Vec<(String, Vec<u8>)>,
}

/// The value of the first field named `name`.
pub open spec fn lookup(s: Seq<Field>, name: Seq<char>) -> Option<Seq<u8>>
    decreases s.len(),
{
    if s.len() == 0 {
        None
    } else if s[0].0 == name {
        Some(s[0].1)
    } else {
        lookup(s.drop_first(), name)
    }
}

/// The fields after setting `name` to `v`: the first field of that name takes
/// the new value, later ones are dropped; a new name goes last.
pub open spec fn replaced(s: Seq<Field>, name: Seq<char>, v: Seq<u8>, found: bool) -> Seq<Field>
    decreases s.len(),
{
    if s.len() == 0 {
        if found {
            Seq::empty()
        } else {
            seq![(name, v)]
        }
    } else if s[0].0 == name {
        if found {
            replaced(s.drop_first(), name, v, true)
        } else {
            seq![(name, v)] + replaced(s.drop_first(), name, v, true)
        }
    } else {
        seq![s[0]] + replaced(s.drop_first(), name, v, found)
    }
}

/// The fields after setting `name` to `v`.
pub open spec fn inserted(s: Seq<Field>, name: Seq<char>, v: Seq<u8>) -> Seq<Field> {
    replaced(s, name, v, false)
}

/// The fields without any field named `name`.
pub open spec fn removed(s: Seq<Field>, name: Seq<char>) -> Seq<Field> {
    s.filter(|f: Field| f.0 != name)
}

/// A byte that a header value read as text may hold: visible ASCII, space
/// or tab.
pub open spec fn visible_ascii(b: u8) -> bool {
    (b >= 32 && b < 127) || b == 9
}

/// A character whose UTF-8 bytes a header value may hold.
pub open spec fn value_char_ok(c: char) -> bool {
    c == '\t' || (c as u32 >= 32 && c as u32 != 127)
}

/// Whether a string may be a header value.
pub open spec fn value_text_ok(s: Seq<char>) -> bool {
    forall|i: int| 0 <= i < s.len() ==> value_char_ok(#[trigger] s[i])
}

/// Whether a header value reads as text.
pub open spec fn is_text(v: Seq<u8>) -> bool {
    forall|i: int| 0 <= i < v.len() ==> visible_ascii(#[trigger] v[i])
}

/// The text of a value all of whose bytes are ASCII.
pub open spec fn ascii_text(v: Seq<u8>) -> Seq<char> {
    Seq::new(v.len(), |i: int| v[i] as char)
}

/// Whether `c` may stand in a header name as HTTP's name type reads one:
/// the token characters, and the double quote.
pub open spec fn header_name_char(c: char) -> bool {
    ||| c == '!' || c == '"' || ('#' <= c && c <= '\'')
    ||| c == '*' || c == '+' || c == '-' || c == '.'
    ||| '0' <= c && c <= '9'
    ||| 'A' <= c && c <= 'Z'
    ||| '^' <= c && c <= 'z'
    ||| c == '|' || c == '~'
}

/// A header name in the form HTTP's name type gives it, if the text is a
/// valid name: one to 65535 name characters, made lower-case.
pub open spec fn spec_parse_header_name(s: Seq<char>) -> Option<Seq<char>> {
    if 1 <= s.len() && s.len() <= 65535 && forall|i: int|
        0 <= i < s.len() ==> header_name_char(#[trigger] s[i]) {
        Some(ascii_lower(s))
    } else {
        None
    }
}

/// The name that `s` denotes, if it is a valid header name.
///
/// This calls `http::header::HeaderName::from_str`, which accepts one to
/// 65535 bytes each of which its table of name characters holds, and maps
/// each through that table (upper-case letters to lower-case); the result is
/// that form as text.
#[verifier::external_body]
pub(crate) fn parse_header_name(s: &str) -> (r: Option<String>)
    ensures
        match r {
            Some(n) => spec_parse_header_name(s@) == Some(n@),
            None => spec_parse_header_name(s@) is None,
        },
{
    match <http::header::HeaderName as std::str::FromStr>::from_str(s) {
        Ok(n) => Some(n.as_str().to_string()),
        Err(_) => None,
    }
}

impl View for Headers {
    type V = Seq<Field>;

    closed spec fn view(&self) -> Seq<Field> {
        Seq::new(self.entries@.len(), |i: int| (self.entries@[i].0@, self.entries@[i].1@))
    }
}

/// The text of a header value, if all its bytes are visible ASCII, space or
/// tab.
pub fn value_to_text(v: &[u8]) -> (r: Option<String>)
    ensures
        match r {
            Some(s) => is_text(v@) && s@ == ascii_text(v@),
            None => !is_text(v@),
        },
{
    let mut chars: Vec<char> = Vec::new();
    let mut i: usize = 0;
    while i < v.len()
        invariant
            i <= v@.len(),
            chars@ == ascii_text(v@.take(i as int)),
            forall|j: int| 0 <= j < i ==> visible_ascii(#[trigger] v@[j]),
        decreases v@.len() - i,
    {
        let b = v[i];
        if !((b >= 32 && b < 127) || b == 9) {
            return None;
        }
        chars.push(b as char);
        i = i + 1;
        proof {
            assert(chars@ =~= ascii_text(v@.take(i as int)));
        }
    }
    proof {
        assert(v@.take(v@.len() as int) =~= v@);
    }
    Some(string_from_chars(chars.as_slice()))
}

/// Whether a string may be a header value.
pub fn text_is_value(s: &str) -> (r: bool)
    ensures
        r == value_text_ok(s@),
{
    let cs = crate::text::chars_of(s);
    let mut i: usize = 0;
    while i < cs.len()
        invariant
            cs@ == s@,
            i <= cs@.len(),
            forall|j: int| 0 <= j < i ==> value_char_ok(#[trigger] cs@[j]),
        decreases cs@.len() - i,
    {
        let c = cs[i];
        let n = c as u32;
        if !(c == '\t' || (n >= 32 && n != 127)) {
            return false;
        }
        i = i + 1;
    }
    true
}

/// The UTF-8 bytes of a string, for use as a header value.
pub fn text_bytes(s: &str) -> (v: Vec<u8>)
    ensures
        v@ == vstd::utf8::encode_utf8(s@),
{
    vstd::slice::slice_to_vec(s.as_bytes())
}

impl Headers {
    /// No fields.
    pub fn new() -> (h: Headers)
        ensures
            h@ == Seq::<Field>::empty(),
    {
        Headers { entries: Vec::new() }
    }

    /// The given fields, in order.
    pub fn from_entries(entries: Vec<(String, Vec<u8>)>) -> (h: Headers)
        ensures
            h@ == Seq::new(entries@.len(), |i: int| (entries@[i].0@, entries@[i].1@)),
    {
        Headers { entries }
    }

    /// The fields, in order.
    pub fn entries(&self) -> (e: &Vec<(String, Vec<u8>)>)
        ensures
            self@ == Seq::new(e@.len(), |i: int| (e@[i].0@, e@[i].1@)),
    {
        &self.entries
    }

    /// The value of the first field named `name`.
    pub fn get(&self, name: &str) -> (r: Option<&Vec<u8>>)
        ensures
            match r {
                Some(v) => lookup(self@, name@) == Some(v@),
                None => lookup(self@, name@) is None,
            },
    {
        let mut i: usize = 0;
        proof {
            assert(self@.skip(0) =~= self@);
        }
        while i < self.entries.len()
            invariant
                i <= self.entries@.len(),
                lookup(self@, name@) == lookup(self@.skip(i as int), name@),
            decreases self.entries@.len() - i,
        {
            let ghost rest = self@.skip(i as int);
            proof {
                assert(rest.drop_first() =~= self@.skip(i + 1));
                assert(rest[0] == self@[i as int]);
            }
            if crate::text::str_eq(self.entries[i].0.as_str(), name) {
                return Some(&self.entries[i].1);
            }
            i = i + 1;
        }
        None
    }

    /// Sets `name` to `value`, replacing all values it had.
    pub fn insert(&mut self, name: &str, value: Vec<u8>)
        ensures
            final(self)@ == inserted(old(self)@, name@, value@),
    {
        let ghost s = self@;
        let mut out: Vec<(String, Vec<u8>)> = Vec::new();
        let mut found = false;
        let mut i: usize = 0;
        let n = self.entries.len();
        proof {
            assert(s.skip(0) =~= s);
            assert(Seq::new(out@.len(), |k: int| (out@[k].0@, out@[k].1@)) + replaced(s, name@, value@, false) =~= replaced(s, name@, value@, false));
        }
        while i < n
            invariant
                n == self.entries@.len(),
                s == self@,
                i <= n,
                Seq::new(out@.len(), |k: int| (out@[k].0@, out@[k].1@)) + replaced(
                    s.skip(i as int),
                    name@,
                    value@,
                    found,
                ) == inserted(s, name@, value@),
            decreases n - i,
        {
            let ghost rest = s.skip(i as int);
            let ghost before = Seq::new(out@.len(), |k: int| (out@[k].0@, out@[k].1@));
            proof {
                assert(rest.drop_first() =~= s.skip(i + 1));
                assert(rest[0] == s[i as int]);
            }
            if crate::text::str_eq(self.entries[i].0.as_str(), name) {
                if !found {
                    out.push((self.entries[i].0.clone(), value.clone()));
                    found = true;
                    proof {
                        let after = Seq::new(out@.len(), |k: int| (out@[k].0@, out@[k].1@));
                        assert(after =~= before + seq![(name@, value@)]);
                        assert(after + replaced(s.skip(i + 1), name@, value@, true) =~= before
                            + replaced(rest, name@, value@, false));
                    }
                } else {
                }
            } else {
                out.push((self.entries[i].0.clone(), self.entries[i].1.clone()));
                proof {
                    let after = Seq::new(out@.len(), |k: int| (out@[k].0@, out@[k].1@));
                    assert(after =~= before + seq![s[i as int]]);
                    assert(after + replaced(s.skip(i + 1), name@, value@, found) =~= before
                        + replaced(rest, name@, value@, found));
                }
            }
            i = i + 1;
        }
        if !found {
            let ghost before = Seq::new(out@.len(), |k: int| (out@[k].0@, out@[k].1@));
            out.push((name.to_owned(), value));
            proof {
                assert(s.skip(n as int) =~= Seq::<Field>::empty());
                let after = Seq::new(out@.len(), |k: int| (out@[k].0@, out@[k].1@));
                assert(after =~= before + seq![(name@, value@)]);
            }
        } else {
            proof {
                assert(s.skip(n as int) =~= Seq::<Field>::empty());
            }
        }
        self.entries = out;
        proof {
            assert(self@ =~= inserted(s, name@, value@));
        }
    }

    /// Drops every field named `name`.
    pub fn remove(&mut self, name: &str)
        ensures
            final(self)@ == removed(old(self)@, name@),
    {
        let ghost s = self@;
        let mut out: Vec<(String, Vec<u8>)> = Vec::new();
        let mut i: usize = 0;
        let n = self.entries.len();
        while i < n
            invariant
                n == self.entries@.len(),
                s == self@,
                i <= n,
                Seq::new(out@.len(), |k: int| (out@[k].0@, out@[k].1@)) == removed(
                    s.take(i as int),
                    name@,
                ),
            decreases n - i,
        {
            let ghost before = Seq::new(out@.len(), |k: int| (out@[k].0@, out@[k].1@));
            proof {
                assert(s.take(i + 1).drop_last() =~= s.take(i as int));
                assert(s.take(i + 1).last() == s[i as int]);
                reveal(Seq::filter);
            }
            if !crate::text::str_eq(self.entries[i].0.as_str(), name) {
                out.push((self.entries[i].0.clone(), self.entries[i].1.clone()));
                proof {
                    let after = Seq::new(out@.len(), |k: int| (out@[k].0@, out@[k].1@));
                    assert(after =~= before.push(s[i as int]));
                }
            }
            i = i + 1;
        }
        proof {
            assert(s.take(n as int) =~= s);
        }
        self.entries = out;
        proof {
            assert(self@ =~= removed(s, name@));
        }
    }

    /// A copy of the fields.
    pub fn duplicate(&self) -> (r: Headers)
        ensures
            r@ == self@,
    {
        let mut out: Vec<(String, Vec<u8>)> = Vec::new();
        let mut i: usize = 0;
        while i < self.entries.len()
            invariant
                i <= self.entries@.len(),
                out@.len() == i,
                forall|k: int|
                    0 <= k < i ==> (#[trigger] out@[k]).0@ == self.entries@[k].0@ && out@[k].1@
                        == self.entries@[k].1@,
            decreases self.entries@.len() - i,
        {
            out.push((self.entries[i].0.clone(), self.entries[i].1.clone()));
            i = i + 1;
        }
        let r = Headers { entries: out };
        proof {
            assert(r@ =~= self@);
        }
        r
    }

    /// The number of fields.
    pub fn len(&self) -> (n: usize)
        ensures
            n == self@.len(),
    {
        self.entries.len()
    }
}

/// Reading a name just set gives the value set; other names read as before.
pub proof fn law_get_after_insert(s: Seq<Field>, name: Seq<char>, v: Seq<u8>, other: Seq<char>)
    ensures
        lookup(inserted(s, name, v), name) == Some(v),
        other != name ==> lookup(inserted(s, name, v), other) == lookup(s, other),
{
    lemma_replaced_lookup(s, name, v, false, other);
}

proof fn lemma_replaced_lookup(s: Seq<Field>, name: Seq<char>, v: Seq<u8>, found: bool, other: Seq<char>)
    ensures
        !found ==> lookup(replaced(s, name, v, found), name) == Some(v),
        other != name ==> lookup(replaced(s, name, v, found), other) == lookup(s, other),
    decreases s.len(),
{
    reveal_with_fuel(lookup, 2);
    if s.len() > 0 {
        lemma_replaced_lookup(s.drop_first(), name, v, found, other);
        lemma_replaced_lookup(s.drop_first(), name, v, true, other);
        let rest_f = replaced(s.drop_first(), name, v, found);
        let rest_t = replaced(s.drop_first(), name, v, true);
        assert((seq![(name, v)] + rest_t).drop_first() =~= rest_t);
        assert((seq![(name, v)] + rest_t)[0] == (name, v));
        assert((seq![s[0]] + rest_f).drop_first() =~= rest_f);
        assert((seq![s[0]] + rest_f)[0] == s[0]);
    } else {
        assert(seq![(name, v)].drop_first() =~= Seq::<Field>::empty());
    }
}

/// A removed name reads as absent; other names read as before.
pub proof fn law_get_after_remove(s: Seq<Field>, name: Seq<char>, other: Seq<char>)
    ensures
        lookup(removed(s, name), name) is None,
        other != name ==> lookup(removed(s, name), other) == lookup(s, other),
    decreases s.len(),
{
    reveal(Seq::filter);
    if s.len() > 0 {
        let t = s.drop_last();
        law_get_after_remove(t, name, other);
        assert(s =~= t.push(s.last()));
        lemma_lookup_push(t, s.last(), other);
        lemma_lookup_push(removed(t, name), s.last(), other);
        lemma_lookup_push(removed(t, name), s.last(), name);
        if s.last().0 == name {
            assert(removed(s, name) =~= removed(t, name));
        } else {
            assert(removed(s, name) =~= removed(t, name).push(s.last()));
        }
    }
}

/// Reading after appending a field: the earlier fields come first.
proof fn lemma_lookup_push(s: Seq<Field>, f: Field, name: Seq<char>)
    ensures
        lookup(s.push(f), name) == match lookup(s, name) {
            Some(x) => Some(x),
            None => if f.0 == name {
                Some(f.1)
            } else {
                None
            },
        },
    decreases s.len(),
{
    reveal_with_fuel(lookup, 2);
    if s.len() > 0 {
        assert(s.push(f).drop_first() =~= s.drop_first().push(f));
        assert(s.push(f)[0] == s[0]);
        lemma_lookup_push(s.drop_first(), f, name);
    } else {
        assert(s.push(f).drop_first() =~= Seq::<Field>::empty());
        assert(s.push(f)[0] == f);
    }
}

} // verus!
