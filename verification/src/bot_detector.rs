//! Bot detection from the User-Agent header: an allow list, a deny list and
//! regular-expression patterns, checked in that order.
use vstd::prelude::*;
use crate::headers::{Headers, Field, lookup, is_text, ascii_text, value_to_text};
use crate::text::{chars_of, chars_contains, contains_seq};
use crate::validate::{regex_match, spec_regex_match};

verus! {

/// The rules of bot detection. The allow and deny lists are sets: their
/// order and repetitions do not change any verdict.
#[derive(Debug, Clone)]
pub struct BotDetectorConfig {
    pub allow: Vec<String>,
    pub deny: Vec<String>,
    pub patterns: Vec<String>,
    pub empty_user_agent_is_bot: bool,
}

/// The texts held by a list of strings.
pub open spec fn texts(v: Seq<String>) -> Seq<Seq<char>> {
    Seq::new(v.len(), |i: int| v[i]@)
}

/// Whether some entry of `list` occurs in `ua`.
pub open spec fn any_contained(ua: Seq<char>, list: Seq<Seq<char>>) -> bool {
    exists|i: int| 0 <= i < list.len() && contains_seq(ua, #[trigger] list[i])
}

/// Whether some pattern of `patterns` compiles and matches `ua`.
pub open spec fn any_pattern_matches(ua: Seq<char>, patterns: Seq<Seq<char>>) -> bool {
    exists|i: int| 0 <= i < patterns.len() && spec_regex_match(#[trigger] patterns[i], ua) == Some(true)
}

/// The verdict on a User-Agent text.
pub open spec fn agent_is_bot(
    ua: Seq<char>,
    allow: Seq<Seq<char>>,
    deny: Seq<Seq<char>>,
    patterns: Seq<Seq<char>>,
) -> bool {
    if any_contained(ua, allow) {
        false
    } else if any_contained(ua, deny) {
        true
    } else {
        any_pattern_matches(ua, patterns)
    }
}

/// The verdict on a request with header fields `h`: a request without a
/// User-Agent, or with an empty one, is a bot exactly when the rules say so;
/// a User-Agent that does not read as text is no bot.
pub open spec fn bot_verdict(h: Seq<Field>, c: BotDetectorConfig) -> bool {
    match lookup(h, "user-agent"@) {
        Some(v) => if v.len() == 0 {
            c.empty_user_agent_is_bot
        } else {
            is_text(v) && agent_is_bot(
            ascii_text(v),
            texts(c.allow@),
            texts(c.deny@),
            texts(c.patterns@),
        )
        },
        None => c.empty_user_agent_is_bot,
    }
}

/// Whether some entry of `list` occurs in `ua`.
fn contains_any(ua: &[char], list: &Vec<String>) -> (r: bool)
    ensures
        r == any_contained(ua@, texts(list@)),
{
    let mut i: usize = 0;
    while i < list.len()
        invariant
            i <= list@.len(),
            forall|j: int| 0 <= j < i ==> !contains_seq(ua@, #[trigger] texts(list@)[j]),
        decreases list@.len() - i,
    {
        let entry = chars_of(list[i].as_str());
        if chars_contains(ua, entry.as_slice()) {
            proof {
                assert(texts(list@)[i as int] == entry@);
            }
            return true;
        }
        i = i + 1;
    }
    proof {
        assert forall|j: int| 0 <= j < texts(list@).len() implies !contains_seq(
            ua@,
            #[trigger] texts(list@)[j],
        ) by {}
    }
    false
}

/// Whether some pattern compiles and matches `ua`.
fn matches_any(ua: &str, patterns: &Vec<String>) -> (r: bool)
    ensures
        r == any_pattern_matches(ua@, texts(patterns@)),
{
    let mut i: usize = 0;
    while i < patterns.len()
        invariant
            i <= patterns@.len(),
            forall|j: int|
                0 <= j < i ==> spec_regex_match(#[trigger] texts(patterns@)[j], ua@) != Some(true),
        decreases patterns@.len() - i,
    {
        match regex_match(patterns[i].as_str(), ua) {
            Some(true) => {
                proof {
                    assert(texts(patterns@)[i as int] == patterns@[i as int]@);
                }
                return true;
            },
            _ => {},
        }
        i = i + 1;
    }
    proof {
        assert forall|j: int| 0 <= j < texts(patterns@).len() implies spec_regex_match(
            #[trigger] texts(patterns@)[j],
            ua@,
        ) != Some(true) by {}
    }
    false
}

/// Whether a request with these header fields comes from a bot.
pub fn is_bot_request(headers: &Headers, config: &BotDetectorConfig) -> (r: bool)
    ensures
        r == bot_verdict(headers@, *config),
{
    match headers.get("user-agent") {
        Some(v) => {
            if v.len() == 0 {
                return config.empty_user_agent_is_bot;
            }
            match value_to_text(v.as_slice()) {
                Some(ua) => {
                    let chars = chars_of(ua.as_str());
                    if contains_any(chars.as_slice(), &config.allow) {
                        return false;
                    }
                    if contains_any(chars.as_slice(), &config.deny) {
                        return true;
                    }
                    matches_any(ua.as_str(), &config.patterns)
                },
                None => false,
            }
        },
        None => config.empty_user_agent_is_bot,
    }
}

/// A User-Agent that contains an entry of the allow list is never taken for a
/// bot, whatever the deny list and the patterns say.
pub proof fn law_allow_list_wins(
    ua: Seq<char>,
    allow: Seq<Seq<char>>,
    deny: Seq<Seq<char>>,
    patterns: Seq<Seq<char>>,
    i: int,
)
    requires
        0 <= i < allow.len(),
        contains_seq(ua, allow[i]),
    ensures
        !agent_is_bot(ua, allow, deny, patterns),
{
}

/// A User-Agent that contains no allowed entry but a denied one is always
/// taken for a bot.
pub proof fn law_deny_list_blocks(
    ua: Seq<char>,
    allow: Seq<Seq<char>>,
    deny: Seq<Seq<char>>,
    patterns: Seq<Seq<char>>,
    i: int,
)
    requires
        !any_contained(ua, allow),
        0 <= i < deny.len(),
        contains_seq(ua, deny[i]),
    ensures
        agent_is_bot(ua, allow, deny, patterns),
{
}

/// A request whose User-Agent reads as text, contains no allowed entry and
/// is matched by the pattern at any position is a bot; one that contains no
/// allowed or denied entry and that no pattern matches is not.
pub proof fn law_patterns_decide(h: Seq<Field>, c: BotDetectorConfig, v: Seq<u8>, i: int)
    requires
        lookup(h, "user-agent"@) == Some(v),
        v.len() > 0,
        is_text(v),
        forall|j: int| 0 <= j < c.allow@.len() ==> !contains_seq(ascii_text(v), #[trigger] c.allow@[j]@),
    ensures
        0 <= i < c.patterns@.len() && spec_regex_match(c.patterns@[i]@, ascii_text(v)) == Some(true)
            ==> bot_verdict(h, c),
        (forall|j: int| 0 <= j < c.deny@.len() ==> !contains_seq(ascii_text(v), #[trigger] c.deny@[j]@))
            && (forall|j: int|
            0 <= j < c.patterns@.len() ==> spec_regex_match(#[trigger] c.patterns@[j]@, ascii_text(v))
                != Some(true)) ==> !bot_verdict(h, c),
{
    let ua = ascii_text(v);
    assert(!any_contained(ua, texts(c.allow@))) by {
        assert forall|j: int| 0 <= j < texts(c.allow@).len() implies !contains_seq(ua, #[trigger] texts(c.allow@)[j]) by {
            assert(texts(c.allow@)[j] == c.allow@[j]@);
        }
    }
    if 0 <= i < c.patterns@.len() && spec_regex_match(c.patterns@[i]@, ua) == Some(true) {
        assert(texts(c.patterns@)[i] == c.patterns@[i]@);
    }
    if (forall|j: int| 0 <= j < c.deny@.len() ==> !contains_seq(ua, #[trigger] c.deny@[j]@)) && (forall|j: int|
        0 <= j < c.patterns@.len() ==> spec_regex_match(#[trigger] c.patterns@[j]@, ua) != Some(true)) {
        assert forall|j: int| 0 <= j < texts(c.deny@).len() implies !contains_seq(ua, #[trigger] texts(c.deny@)[j]) by {
            assert(texts(c.deny@)[j] == c.deny@[j]@);
        }
        assert forall|j: int| 0 <= j < texts(c.patterns@).len() implies spec_regex_match(
            #[trigger] texts(c.patterns@)[j],
            ua,
        ) != Some(true) by {
            assert(texts(c.patterns@)[j] == c.patterns@[j]@);
        }
    }
}

/// A request without a User-Agent, or with an empty one, is a bot exactly
/// when the configuration says so; one whose User-Agent does not read as
/// text is not.
pub proof fn law_missing_or_unreadable_agent(h: Seq<Field>, c: BotDetectorConfig)
    ensures
        lookup(h, "user-agent"@) is None ==> bot_verdict(h, c) == c.empty_user_agent_is_bot,
        lookup(h, "user-agent"@) == Some(Seq::<u8>::empty()) ==> bot_verdict(h, c) == c.empty_user_agent_is_bot,
        (lookup(h, "user-agent"@) matches Some(v) && v.len() > 0 && !is_text(v)) ==> !bot_verdict(h, c),
{
}

} // verus!
