use project_commentator::prompt::{
    append_piece, build_gemma_prompt, check_prompt_fits, generation_limit, seed, seed_from,
    select_prompt,
    template_user_content,
};

fn msgs(list: &[(&str, &str)]) -> Vec<(String, String)> {
    list.iter().map(|(r, c)| (r.to_string(), c.to_string())).collect()
}

#[test]
fn system_folded_into_first_user_turn() {
    let p = build_gemma_prompt(Some("  Be funny.  "), &msgs(&[("user", "  Roast this. ")]));
    assert_eq!(
        p,
        "<start_of_turn>user\nBe funny.\n\nRoast this.<end_of_turn>\n<start_of_turn>model\n"
    );
}

#[test]
fn system_skips_assistant_turns_and_is_used_once() {
    let p = build_gemma_prompt(
        Some("sys"),
        &msgs(&[("assistant", " hi "), ("user", "a"), ("user", "b")]),
    );
    assert_eq!(
        p,
        "<start_of_turn>model\nhi<end_of_turn>\n\
         <start_of_turn>user\nsys\n\na<end_of_turn>\n\
         <start_of_turn>user\nb<end_of_turn>\n\
         <start_of_turn>model\n"
    );
}

#[test]
fn system_alone_becomes_its_own_turn() {
    let p = build_gemma_prompt(Some("rules"), &[]);
    assert_eq!(p, "<start_of_turn>user\nrules<end_of_turn>\n<start_of_turn>model\n");
}

#[test]
fn system_after_only_assistant_turns() {
    let p = build_gemma_prompt(Some("rules"), &msgs(&[("assistant", "x")]));
    assert_eq!(
        p,
        "<start_of_turn>model\nx<end_of_turn>\n<start_of_turn>user\nrules<end_of_turn>\n<start_of_turn>model\n"
    );
}

#[test]
fn blank_system_adds_nothing() {
    let m = msgs(&[("user", "q")]);
    assert_eq!(build_gemma_prompt(Some(" \n\t"), &m), build_gemma_prompt(None, &m));
    assert_eq!(build_gemma_prompt(None, &m), "<start_of_turn>user\nq<end_of_turn>\n<start_of_turn>model\n");
}

#[test]
fn empty_prompt_opens_model_turn() {
    assert_eq!(build_gemma_prompt(None, &[]), "<start_of_turn>model\n");
}

#[test]
fn unknown_roles_count_as_user() {
    let p = build_gemma_prompt(None, &msgs(&[("system", "x"), ("Assistant", "y")]));
    assert_eq!(
        p,
        "<start_of_turn>user\nx<end_of_turn>\n<start_of_turn>user\ny<end_of_turn>\n<start_of_turn>model\n"
    );
}

#[test]
fn law_every_prompt_ends_with_model_turn() {
    for sys in [None, Some(""), Some("s")] {
        for m in [msgs(&[]), msgs(&[("user", "a")]), msgs(&[("assistant", "b")])] {
            assert!(build_gemma_prompt(sys, &m).ends_with("<start_of_turn>model\n"));
        }
    }
}

#[test]
fn template_content_folds_system() {
    assert_eq!(template_user_content("  sys  ", "<__media__> look"), "sys\n\n<__media__> look");
    assert_eq!(template_user_content("   ", "<__media__> look"), "<__media__> look");
}

#[test]
fn rendered_template_is_used_with_thinking() {
    let (p, thinking) = select_prompt(Some("TEMPLATE".to_string()), "sys", "do it");
    assert_eq!(p, "TEMPLATE");
    assert!(thinking);
}

#[test]
fn manual_prompt_is_the_fallback() {
    let (p, thinking) = select_prompt(None, "sys", " do it ");
    assert_eq!(p, "<start_of_turn>user\nsys\n\ndo it<end_of_turn>\n<start_of_turn>model\n");
    assert!(!thinking);
}

#[test]
fn prompt_must_fit_context() {
    assert!(check_prompt_fits(0).is_ok());
    assert!(check_prompt_fits(8191).is_ok());
    assert_eq!(check_prompt_fits(8192), Err("prompt longer than context window".to_string()));
    assert!(check_prompt_fits(100_000).is_err());
}

#[test]
fn prompt_length_is_read_as_u32() {
    // Past 2^32 tokens the count wraps when read as a u32.
    assert!(check_prompt_fits((u32::MAX as usize).wrapping_add(6)).is_ok());
}

#[test]
fn generation_limit_caps_at_context() {
    assert_eq!(generation_limit(100, 320), 420);
    assert_eq!(generation_limit(8000, 1024), 8191);
    assert_eq!(generation_limit(7871, 320), 8191);
    assert_eq!(generation_limit(7870, 320), 8190);
}

#[test]
fn pieces_accumulate_until_a_turn_marker() {
    let mut out = String::new();
    assert!(!append_piece(&mut out, "Hello"));
    assert!(!append_piece(&mut out, " world"));
    assert_eq!(out, "Hello world");
    assert!(!append_piece(&mut out, " <end_of"));
    assert!(append_piece(&mut out, "_turn>more"));
    assert_eq!(out, "Hello world ");
}

#[test]
fn start_of_turn_also_stops() {
    let mut out = "abc".to_string();
    assert!(append_piece(&mut out, "<start_of_turn>user"));
    assert_eq!(out, "abc");
}

#[test]
fn end_of_turn_wins_over_earlier_start_of_turn() {
    let mut out = String::new();
    assert!(append_piece(&mut out, "a<start_of_turn>b<end_of_turn>c"));
    assert_eq!(out, "a<start_of_turn>b");
    assert!(!out.contains("<end_of_turn>"));
}

#[test]
fn seed_is_a_subsecond_nanosecond_count() {
    assert!(seed() < 1_000_000_000);
}

#[test]
fn seed_is_the_clock_nanoseconds_or_zero() {
    assert_eq!(seed_from(Some(123_456_789)), 123_456_789);
    assert_eq!(seed_from(None), 0);
}
