use project_commentator::driver::{
    interval_secs, next_comment, parse_u64, roast_instruction, thinking_enabled,
    turn_token_budget, SYSTEM_PROMPT,
};
use project_commentator::thinking::Reply;

#[test]
fn parses_like_std() {
    for s in [
        "42", "+7", "", "+", "-1", "0", "007", "18446744073709551615", "18446744073709551616",
        "99999999999999999999x", "1a", " 5", "5 ", "++1",
    ] {
        assert_eq!(parse_u64(s), s.parse::<u64>().ok(), "{s:?}");
    }
}

#[test]
fn interval_defaults_and_floor() {
    assert_eq!(interval_secs(None), 60);
    assert_eq!(interval_secs(Some("5")), 5);
    assert_eq!(interval_secs(Some("0")), 1);
    assert_eq!(interval_secs(Some("abc")), 60);
    assert_eq!(interval_secs(Some("-3")), 60);
}

#[test]
fn thinking_is_on_unless_switched_off() {
    assert!(thinking_enabled(None));
    assert!(thinking_enabled(Some("true")));
    assert!(thinking_enabled(Some("no")));
    assert!(thinking_enabled(Some("fAlse")));
    for off in ["0", "false", "FALSE", "False"] {
        assert!(!thinking_enabled(Some(off)));
    }
}

#[test]
fn budgets() {
    assert_eq!(turn_token_budget(true), 1024);
    assert_eq!(turn_token_budget(false), 320);
}

#[test]
fn instruction_places_the_media_marker_first() {
    assert_eq!(
        roast_instruction("<__media__>"),
        "<__media__> Look at this screenshot and roast it in one funny paragraph."
    );
    assert!(SYSTEM_PROMPT.starts_with("You are a witty, snarky commentator."));
}

#[test]
fn comment_ids_count_up() {
    let mut id = 0u64;
    let a = next_comment(
        &mut id,
        Reply { text: "first".to_string(), thinking: None },
        "thumb".to_string(),
        "t1".to_string(),
    );
    let b = next_comment(
        &mut id,
        Reply { text: "second".to_string(), thinking: Some("why".to_string()) },
        "thumb2".to_string(),
        "t2".to_string(),
    );
    assert_eq!((a.id, b.id, id), (1, 2, 2));
    assert_eq!(a.text, "first");
    assert_eq!(a.thumb.as_deref(), Some("thumb"));
    assert_eq!(a.thinking, None);
    assert_eq!(b.thinking.as_deref(), Some("why"));
    assert_eq!(b.ts, "t2");
}
