use road7::bot_detector::{is_bot_request, BotDetectorConfig};
use road7::headers::Headers;

fn create_config(allow: Vec<&str>, deny: Vec<&str>, patterns: Vec<&str>, empty_user_agent_is_bot: bool) -> BotDetectorConfig {
    BotDetectorConfig {
        allow: allow.into_iter().map(String::from).collect(),
        deny: deny.into_iter().map(String::from).collect(),
        patterns: patterns.into_iter().map(String::from).collect(),
        empty_user_agent_is_bot,
    }
}

fn with_agent(agent: &str) -> Headers {
    let mut h = Headers::new();
    h.insert("user-agent", agent.as_bytes().to_vec());
    h
}

#[test]
fn test_allow_list() {
    let config = create_config(vec!["Mozilla"], vec![], vec![], false);
    assert_eq!(is_bot_request(&with_agent("Mozilla/5.0"), &config), false);
}

#[test]
fn test_deny_list() {
    let config = create_config(vec![], vec!["BadBot"], vec![], false);
    assert_eq!(is_bot_request(&with_agent("BadBot/1.0"), &config), true);
}

#[test]
fn test_patterns_list() {
    let config = create_config(vec![], vec![], vec![r"Bot/.*"], false);
    assert_eq!(is_bot_request(&with_agent("SomeBot/1.0"), &config), true);
}

#[test]
fn test_empty_user_agent_is_bot() {
    let config = create_config(vec![], vec![], vec![], true);
    assert_eq!(is_bot_request(&Headers::new(), &config), true);
}

#[test]
fn test_empty_user_agent_is_not_bot() {
    let config = create_config(vec![], vec![], vec![], false);
    assert_eq!(is_bot_request(&Headers::new(), &config), false);
}

#[test]
fn test_no_user_agent_header() {
    let config = create_config(vec!["Mozilla"], vec!["BadBot"], vec![r"Bot/.*"], false);
    assert_eq!(is_bot_request(&Headers::new(), &config), false);
}

#[test]
fn allow_list_wins_over_deny_list() {
    let config = create_config(vec!["Friendly"], vec!["Bot"], vec![r".*"], false);
    assert_eq!(is_bot_request(&with_agent("FriendlyBot/2"), &config), false);
}

#[test]
fn invalid_patterns_are_skipped() {
    let config = create_config(vec![], vec![], vec![r"(unclosed", r"^curl"], false);
    assert_eq!(is_bot_request(&with_agent("curl/8.0"), &config), true);
    assert_eq!(is_bot_request(&with_agent("wget/1.0"), &config), false);
}

#[test]
fn non_text_agent_is_no_bot() {
    let config = create_config(vec![], vec![""], vec![], true);
    let h = Headers::from_entries(vec![("user-agent".to_string(), vec![0xFF, 0x41])]);
    assert_eq!(is_bot_request(&h, &config), false);
}

#[test]
fn present_but_empty_user_agent_follows_the_flag() {
    assert_eq!(is_bot_request(&with_agent(""), &create_config(vec![], vec![], vec![], true)), true);
    assert_eq!(is_bot_request(&with_agent(""), &create_config(vec![], vec![], vec![], false)), false);
}
