use project_commentator::thinking::{split_thinking, Reply};

fn split(raw: &str, thinking: bool) -> Reply {
    split_thinking(raw.to_string(), thinking)
}

#[test]
fn thinking_off_trims_and_keeps_markers() {
    let r = split("  hello <channel|> there \n", false);
    assert_eq!(r.text, "hello <channel|> there");
    assert_eq!(r.thinking, None);
}

#[test]
fn thought_then_final_channel() {
    let raw = "<|channel|thought\nreasoning here<channel|><|channel|final\nThe answer<channel|>";
    let r = split(raw, true);
    assert_eq!(r.text, "The answer");
    assert_eq!(r.thinking.as_deref(), Some("reasoning here"));
}

#[test]
fn angle_spelling_of_openers() {
    let raw = "<|channel>thought\n  weighing it up  <|channel|><|channel>final\n  Nice tabs.  ";
    let r = split(raw, true);
    assert_eq!(r.text, "Nice tabs.");
    assert_eq!(r.thinking.as_deref(), Some("weighing it up"));
}

#[test]
fn lone_thought_block_then_answer() {
    let r = split("<|channel>thought\nhmm\n<channel|>Answer text", true);
    assert_eq!(r.text, "Answer text");
    assert_eq!(r.thinking.as_deref(), Some("hmm"));
}

#[test]
fn lone_thought_block_unclosed() {
    let r = split("<|channel>thought\nstill thinking", true);
    assert_eq!(r.text, "");
    assert_eq!(r.thinking.as_deref(), Some("still thinking"));
}

#[test]
fn only_final_channel() {
    let r = split("junk<|channel|final\nHi there<channel|>trailing", true);
    assert_eq!(r.text, "Hi there");
    assert_eq!(r.thinking, None);
}

#[test]
fn last_final_channel_wins() {
    let r = split("<|channel|final\nfirst<channel|><|channel|final\nsecond", true);
    assert_eq!(r.text, "second");
    assert_eq!(r.thinking, None);
}

#[test]
fn no_markers_with_thinking_on() {
    let r = split("  plain <channel|>quip<|channel|> ", true);
    assert_eq!(r.text, "plain quip");
    assert_eq!(r.thinking, None);
}

#[test]
fn markers_match_in_any_ascii_case() {
    let raw = "<|CHANNEL|THOUGHT\nR<CHANNEL|><|Channel|Final\nA";
    let r = split(raw, true);
    assert_eq!(r.text, "A");
    assert_eq!(r.thinking.as_deref(), Some("R"));
}

#[test]
fn differently_cased_close_is_skipped_whole() {
    let r = split("<|channel>thought\nr<CHANNEL|>xAnswer", true);
    assert_eq!(r.text, "xAnswer");
    assert_eq!(r.thinking.as_deref(), Some("r"));
}

#[test]
fn differently_cased_close_at_the_end() {
    let r = split("<|channel>thought\nx<CHANNEL|>", true);
    assert_eq!(r.text, "");
    assert_eq!(r.thinking.as_deref(), Some("x"));
    let r = split("<|channel>thought\nx<CHANNEL|>é", true);
    assert_eq!(r.text, "é");
    assert_eq!(r.thinking.as_deref(), Some("x"));
}

#[test]
fn block_ends_at_first_close_of_either_spelling() {
    let r = split("<|channel>thought\nA<|channel|>B<channel|>C", true);
    assert_eq!(r.thinking.as_deref(), Some("A"));
    assert_eq!(r.text, "BC");
    let r = split("<|channel|thought\nR<|channel|>x<channel|><|channel|final\nF<|channel|>G<channel|>", true);
    assert_eq!(r.thinking.as_deref(), Some("R"));
    assert_eq!(r.text, "F");
}

#[test]
fn thought_after_final_is_ignored() {
    let r = split("<|channel|final\nA<|channel|thought\nB", true);
    assert_eq!(r.text, "<|channel|final\nA<|channel|thought\nB");
    assert_eq!(r.thinking, None);
}

#[test]
fn blank_reasoning_is_dropped() {
    let r = split("<|channel|thought\n   <channel|><|channel|final\nX", true);
    assert_eq!(r.text, "X");
    assert_eq!(r.thinking, None);
}

#[test]
fn opener_without_newline_keeps_marker_text() {
    // Without a newline the content starts at the opener itself.
    let r = split("<|channel|finalAnswer", true);
    assert_eq!(r.text, "<|channel|finalAnswer");
    assert_eq!(r.thinking, None);
}

#[test]
fn law_no_thought_channel_means_no_reasoning() {
    for raw in ["just a quip", "<|channel|final\nquip", "<channel|>x<|channel|>"] {
        assert_eq!(split(raw, true).thinking, None);
        assert_eq!(split(raw, false).thinking, None);
    }
}

#[test]
fn law_parts_come_out_trimmed() {
    let r = split("<|channel|thought\n\t reason \u{a0}<channel|><|channel|final\n\u{3000} answer \n", true);
    assert_eq!(r.text, "answer");
    assert_eq!(r.thinking.as_deref(), Some("reason"));
}

#[test]
fn unicode_text_survives() {
    let r = split("<|channel|thought\nça va?<channel|><|channel|final\nÜber 🎉", true);
    assert_eq!(r.text, "Über 🎉");
    assert_eq!(r.thinking.as_deref(), Some("ça va?"));
}
