use vstd::prelude::*;

use crate::text::{
    chars_of, find, find_exec, is_space, lemma_find_from_result, lemma_trim_unchanged, matches_at,
    same_text, string_of_range, trim, trimmed,
};

verus! {

broadcast use vstd::string::group_string_axioms;

/// The context window every turn is built for, in tokens.
pub const N_CTX: u32 = 8192;

// ---------------------------------------------------------------------------
// The Gemma chat format
// ---------------------------------------------------------------------------

/// A chat message as plain text: (role, content).
pub open spec fn message_view(m: (String, String)) -> (Seq<char>, Seq<char>) {
    (m.0@, m.1@)
}

/// The turns for `msgs`, with `sys` still to be folded into the first user
/// turn unless `used`.
pub open spec fn gemma_turns(
    sys: Seq<char>,
    msgs: Seq<(Seq<char>, Seq<char>)>,
    used: bool,
) -> Seq<char>
    decreases msgs.len(),
{
    if msgs.len() == 0 {
        if sys.len() > 0 && !used {
            "<start_of_turn>user\n"@ + sys + "<end_of_turn>\n"@
        } else {
            Seq::empty()
        }
    } else {
        let role = msgs[0].0;
        let content = trim(msgs[0].1);
        let rest = msgs.drop_first();
        if role == "assistant"@ {
            "<start_of_turn>model\n"@ + content + "<end_of_turn>\n"@ + gemma_turns(sys, rest, used)
        } else if sys.len() > 0 && !used {
            "<start_of_turn>user\n"@ + sys + "\n\n"@ + content + "<end_of_turn>\n"@ + gemma_turns(
                sys,
                rest,
                true,
            )
        } else {
            "<start_of_turn>user\n"@ + content + "<end_of_turn>\n"@ + gemma_turns(sys, rest, used)
        }
    }
}

/// The Gemma prompt for an optional system text and a list of messages,
/// ending with the opener of the model's turn.
pub open spec fn gemma_prompt(
    system: Option<Seq<char>>,
    msgs: Seq<(Seq<char>, Seq<char>)>,
) -> Seq<char> {
    let sys = match system {
        Some(s) => trim(s),
        None => Seq::empty(),
    };
    gemma_turns(sys, msgs, false) + "<start_of_turn>model\n"@
}

/// Build a Gemma chat-format prompt. Gemma has no system role, so the system
/// text is folded into the first user turn. BOS is added by the tokenizer.
pub fn build_gemma_prompt(system: Option<&str>, messages: &[(String, String)]) -> (r: String)
    ensures
        r@ == gemma_prompt(
            match system {
                Some(s) => Some(s@),
                None => None,
            },
            messages@.map_values(|m: (String, String)| message_view(m)),
        ),
{
    let ghost msgs = messages@.map_values(|m: (String, String)| message_view(m));
    let sys = match system {
        Some(s) => trimmed(s),
        None => String::new(),
    };
    let ghost sysv = sys@;
    let mut out = String::new();
    let mut sys_used = false;
    let mut i: usize = 0;
    assert(msgs.skip(0) =~= msgs);
    while i < messages.len()
        invariant
            i <= messages.len(),
            msgs == messages@.map_values(|m: (String, String)| message_view(m)),
            sys@ == sysv,
            out@ + gemma_turns(sysv, msgs.skip(i as int), sys_used) == gemma_turns(
                sysv,
                msgs,
                false,
            ),
        decreases messages.len() - i,
    {
        let ghost before = out@;
        let ghost used_before = sys_used;
        let ghost rest = msgs.skip(i + 1);
        assert(msgs.skip(i as int).drop_first() =~= rest);
        assert(msgs.skip(i as int)[0] == message_view(messages@[i as int]));
        let role = &messages[i].0;
        let content = trimmed(messages[i].1.as_str());
        if same_text(role.as_str(), "assistant") {
            out.append("<start_of_turn>model\n");
            out.append(content.as_str());
            out.append("<end_of_turn>\n");
            assert(out@ + gemma_turns(sysv, rest, sys_used) =~= before + gemma_turns(
                sysv,
                msgs.skip(i as int),
                sys_used,
            ));
        } else {
            out.append("<start_of_turn>user\n");
            if !sys.as_str().is_empty() && !sys_used {
                out.append(sys.as_str());
                out.append("\n\n");
                sys_used = true;
            }
            out.append(content.as_str());
            out.append("<end_of_turn>\n");
            assert(out@ + gemma_turns(sysv, rest, sys_used) =~= before + gemma_turns(
                sysv,
                msgs.skip(i as int),
                used_before,
            ));
        }
        i += 1;
    }
    let ghost before = out@;
    if !sys.as_str().is_empty() && !sys_used {
        out.append("<start_of_turn>user\n");
        out.append(sys.as_str());
        out.append("<end_of_turn>\n");
    }
    assert(msgs.skip(i as int) =~= Seq::<(Seq<char>, Seq<char>)>::empty());
    out.append("<start_of_turn>model\n");
    out
}

/// The single user message of an image-grounded turn: the system text, when
/// it is not blank, trimmed and set above the instruction.
pub open spec fn user_content(system: Seq<char>, instruction: Seq<char>) -> Seq<char> {
    if trim(system).len() == 0 {
        instruction
    } else {
        trim(system) + "\n\n"@ + instruction
    }
}

/// The text of the one user message that the thinking chat template renders.
/// The system text is folded into it (Gemma has no system role).
pub fn template_user_content(system: &str, instruction: &str) -> (r: String)
    ensures
        r@ == user_content(system@, instruction@),
{
    let sys = trimmed(system);
    if sys.as_str().is_empty() {
        String::from_str(instruction)
    } else {
        let mut out = sys;
        out.append("\n\n");
        out.append(instruction);
        out
    }
}

/// The manual prompt of an image-grounded turn: one user message carrying the
/// instruction, with the system text folded in.
pub open spec fn manual_prompt(system: Seq<char>, instruction: Seq<char>) -> Seq<char> {
    gemma_prompt(Some(system), seq![("user"@, instruction)])
}

/// The prompt of a turn and whether it asks the model to think: the rendered
/// thinking template when there is one, else the manual prompt without
/// thinking (the fallback when thinking is off or the template did not render).
pub fn select_prompt(rendered: Option<String>, system: &str, instruction: &str) -> (r: (
    String,
    bool,
))
    ensures
        match rendered {
            Some(p) => r.0@ == p@ && r.1,
            None => r.0@ == manual_prompt(system@, instruction@) && !r.1,
        },
{
    match rendered {
        Some(p) => (p, true),
        None => {
            let msgs = vec![(String::from_str("user"), String::from_str(instruction))];
            let prompt = build_gemma_prompt(Some(system), msgs.as_slice());
            assert(msgs@.map_values(|m: (String, String)| message_view(m)) =~= seq![
                ("user"@, instruction@),
            ]);
            (prompt, false)
        },
    }
}

/// Whether a tokenized prompt of `total_tokens` tokens leaves room in the
/// context window; the count is taken as a `u32`, as the engine does.
pub fn check_prompt_fits(total_tokens: usize) -> (r: Result<(), String>)
    ensures
        r is Ok <==> (total_tokens as u32) < N_CTX,
        r matches Err(e) ==> e@ == "prompt longer than context window"@,
{
    if total_tokens as u32 >= N_CTX {
        Err(String::from_str("prompt longer than context window"))
    } else {
        Ok(())
    }
}

/// The position at which generation stops: `max_tokens` past the prompt, but
/// never beyond the last slot of the context window.
pub fn generation_limit(n_past: i32, max_tokens: usize) -> (r: i32)
    requires
        i32::MIN <= n_past + (max_tokens as i32) <= i32::MAX,
    ensures
        r == (if n_past + (max_tokens as i32) < N_CTX - 1 {
            n_past + (max_tokens as i32)
        } else {
            N_CTX - 1
        }),
{
    let total = n_past + max_tokens as i32;
    let cap = (N_CTX - 1) as i32;
    if total < cap {
        total
    } else {
        cap
    }
}

/// Where streamed output is cut: at the first end-of-turn marker, else at the
/// first start-of-turn marker.
pub open spec fn turn_cut(s: Seq<char>) -> Option<int> {
    match find(s, "<end_of_turn>"@) {
        Some(i) => Some(i),
        None => find(s, "<start_of_turn>"@),
    }
}

/// Streamed output after a cut, and whether generation stops there.
pub open spec fn stream_cut(s: Seq<char>) -> (Seq<char>, bool) {
    match turn_cut(s) {
        Some(i) => (s.take(i), true),
        None => (s, false),
    }
}

/// Append one decoded piece to the streamed output. When a turn marker has
/// appeared, the output is cut there and `true` says that generation stops.
pub fn append_piece(out: &mut String, piece: &str) -> (stop: bool)
    ensures
        (final(out)@, stop) == stream_cut(old(out)@ + piece@),
{
    let mut v = chars_of(out.as_str());
    let p = chars_of(piece);
    crate::text::push_all(&mut v, &p);
    let eot = chars_of("<end_of_turn>");
    let sot = chars_of("<start_of_turn>");
    proof {
        reveal_strlit("<end_of_turn>");
        reveal_strlit("<start_of_turn>");
    }
    let cut = match find_exec(&v, &eot) {
        Some(i) => Some(i),
        None => find_exec(&v, &sot),
    };
    match cut {
        Some(i) => {
            proof {
                lemma_find_from_result(v@, eot@, 0);
                lemma_find_from_result(v@, sot@, 0);
            }
            *out = string_of_range(&v, 0, i);
            assert(v@.subrange(0, i as int) =~= v@.take(i as int));
            true
        },
        None => {
            out.append(piece);
            false
        },
    }
}

// ---------------------------------------------------------------------------
// Sampling seed
// ---------------------------------------------------------------------------

/// The system clock's time.
#[verifier::external_type_specification]
#[verifier::external_body]
pub struct ExSystemTime(std::time::SystemTime);

/// `SystemTime::now`: the current reading of the system clock. Nothing is
/// stated of it.
#[verifier::external_body]
fn system_now() -> std::time::SystemTime {
    std::time::SystemTime::now()
}

/// `SystemTime::duration_since(UNIX_EPOCH)`, `None` when the clock reads
/// earlier than the epoch. Nothing is stated of the result, which depends on
/// the clock.
#[verifier::external_body]
fn since_unix_epoch(t: &std::time::SystemTime) -> Option<std::time::Duration> {
    t.duration_since(std::time::UNIX_EPOCH).ok()
}

/// `Duration::subsec_nanos`: the fractional part of a duration in
/// nanoseconds, which std documents to be less than one billion.
#[verifier::external_body]
fn subsec_nanos(d: &std::time::Duration) -> (r: u32)
    ensures
        r < 1_000_000_000,
{
    d.subsec_nanos()
}

/// The sampler seed for a clock reading, given as the nanoseconds within the
/// second since the Unix epoch (`None` when the clock reads earlier than the
/// epoch): those nanoseconds, or zero.
pub fn seed_from(nanos: Option<u32>) -> (r: u32)
    ensures
        r == (match nanos {
            Some(n) => n,
            None => 0,
        }),
{
    match nanos {
        Some(n) => n,
        None => 0,
    }
}

/// A fresh sampler seed: the nanoseconds within the current second of the
/// system clock, or zero when the clock reads earlier than the Unix epoch.
pub fn seed() -> (r: u32)
    ensures
        r < 1_000_000_000,
{
    let now = system_now();
    let nanos = match since_unix_epoch(&now) {
        Some(d) => Some(subsec_nanos(&d)),
        None => None,
    };
    seed_from(nanos)
}

// ---------------------------------------------------------------------------
// Laws
// ---------------------------------------------------------------------------

/// Every prompt ends by opening the model's turn.
pub proof fn law_prompt_ends_with_model_turn(
    system: Option<Seq<char>>,
    msgs: Seq<(Seq<char>, Seq<char>)>,
)
    ensures
        ({
            let p = gemma_prompt(system, msgs);
            let k = "<start_of_turn>model\n"@.len();
            p.len() >= k && p.subrange(p.len() - k, p.len() as int) == "<start_of_turn>model\n"@
        }),
{
    let sys = match system {
        Some(s) => trim(s),
        None => Seq::empty(),
    };
    let t = gemma_turns(sys, msgs, false);
    let m = "<start_of_turn>model\n"@;
    assert((t + m).subrange(t.len() as int, (t + m).len() as int) =~= m);
}

/// A blank system text adds nothing to the prompt.
pub proof fn law_blank_system_adds_nothing(s: Seq<char>, msgs: Seq<(Seq<char>, Seq<char>)>)
    requires
        trim(s).len() == 0,
    ensures
        gemma_prompt(Some(s), msgs) == gemma_prompt(None, msgs),
{
    assert(trim(s) =~= Seq::<char>::empty());
}

/// With no messages, a system text becomes a user turn of its own.
pub proof fn law_system_alone_is_user_turn(s: Seq<char>)
    requires
        trim(s).len() > 0,
    ensures
        gemma_prompt(Some(s), Seq::empty()) == "<start_of_turn>user\n"@ + trim(s)
            + "<end_of_turn>\n"@ + "<start_of_turn>model\n"@,
{
}

/// Once the system text has been folded in, the remaining messages are laid
/// out exactly as if there were no system text.
pub proof fn law_folded_system_not_repeated(sys: Seq<char>, msgs: Seq<(Seq<char>, Seq<char>)>)
    ensures
        gemma_turns(sys, msgs, true) == gemma_turns(Seq::empty(), msgs, false),
    decreases msgs.len(),
{
    if msgs.len() > 0 {
        law_folded_system_not_repeated(sys, msgs.drop_first());
    }
}

/// The system text is folded into the first message when that message is a
/// user message, and appears nowhere else.
pub proof fn law_system_folded_into_first_user_turn(
    s: Seq<char>,
    msgs: Seq<(Seq<char>, Seq<char>)>,
)
    requires
        trim(s).len() > 0,
        msgs.len() > 0,
        msgs[0].0 != "assistant"@,
    ensures
        gemma_prompt(Some(s), msgs) == "<start_of_turn>user\n"@ + trim(s) + "\n\n"@ + trim(
            msgs[0].1,
        ) + "<end_of_turn>\n"@ + gemma_turns(Seq::empty(), msgs.drop_first(), false)
            + "<start_of_turn>model\n"@,
{
    law_folded_system_not_repeated(trim(s), msgs.drop_first());
}

/// Output cut by `append_piece` never holds an end-of-turn marker, and output
/// that was not cut holds no start-of-turn marker either.
pub proof fn law_cut_output_has_no_turn_marker(s: Seq<char>)
    ensures
        find(stream_cut(s).0, "<end_of_turn>"@) is None,
        !stream_cut(s).1 ==> find(stream_cut(s).0, "<start_of_turn>"@) is None,
{
    let eot = "<end_of_turn>"@;
    let sot = "<start_of_turn>"@;
    let c = stream_cut(s).0;
    lemma_find_from_result(s, eot, 0);
    lemma_find_from_result(s, sot, 0);
    lemma_find_from_result(c, eot, 0);
    lemma_find_from_result(c, sot, 0);
    reveal_strlit("<end_of_turn>");
    if let Some(j) = find(c, eot) {
        assert(matches_at(c, eot, j));
        match turn_cut(s) {
            Some(i) => {
                assert(c == s.take(i));
                assert(c.len() == i);
                assert(c.subrange(j, j + eot.len()) =~= s.subrange(j, j + eot.len()));
                assert(matches_at(s, eot, j));
                assert(j < i);
            },
            None => {
                assert(c == s);
            },
        }
    }
}

/// An assistant message becomes a model turn, in its place, carrying its
/// trimmed content — whatever the system text and whether it has been folded
/// in yet.
pub proof fn law_assistant_message_is_model_turn(
    sys: Seq<char>,
    content: Seq<char>,
    rest: Seq<(Seq<char>, Seq<char>)>,
    used: bool,
)
    ensures
        gemma_turns(sys, seq![("assistant"@, content)] + rest, used) == "<start_of_turn>model\n"@
            + trim(content) + "<end_of_turn>\n"@ + gemma_turns(sys, rest, used),
{
    let msgs = seq![("assistant"@, content)] + rest;
    assert(msgs[0] == ("assistant"@, content));
    assert(msgs.drop_first() =~= rest);
}

/// Any other message, once no system text is waiting to be folded in,
/// becomes a user turn, in its place, carrying its trimmed content.
pub proof fn law_other_message_is_user_turn(
    sys: Seq<char>,
    role: Seq<char>,
    content: Seq<char>,
    rest: Seq<(Seq<char>, Seq<char>)>,
    used: bool,
)
    requires
        role != "assistant"@,
        used || sys.len() == 0,
    ensures
        gemma_turns(sys, seq![(role, content)] + rest, used) == "<start_of_turn>user\n"@ + trim(
            content,
        ) + "<end_of_turn>\n"@ + gemma_turns(sys, rest, used),
{
    let msgs = seq![(role, content)] + rest;
    assert(msgs[0] == (role, content));
    assert(msgs.drop_first() =~= rest);
}

/// Streamed output only ever loses a tail: what is kept is a prefix of the
/// old output and the piece.
pub proof fn law_cut_keeps_a_prefix(s: Seq<char>)
    ensures
        stream_cut(s).0.len() <= s.len(),
        stream_cut(s).0 == s.take(stream_cut(s).0.len() as int),
{
    lemma_find_from_result(s, "<end_of_turn>"@, 0);
    lemma_find_from_result(s, "<start_of_turn>"@, 0);
    if let Some(i) = turn_cut(s) {
        assert(s.take(i).len() == i);
        assert(s.take(i) =~= s.take(s.take(i).len() as int));
    } else {
        assert(s =~= s.take(s.len() as int));
    }
}

/// Where the old output and the piece hold no turn marker, `append_piece`
/// only appends: the new output is the old one followed by the piece, and
/// generation goes on.
pub proof fn law_plain_piece_is_appended(old: Seq<char>, piece: Seq<char>)
    requires
        forall|j: int| !#[trigger] matches_at(old + piece, "<end_of_turn>"@, j),
        forall|j: int| !#[trigger] matches_at(old + piece, "<start_of_turn>"@, j),
    ensures
        stream_cut(old + piece) == (old + piece, false),
{
    lemma_find_from_result(old + piece, "<end_of_turn>"@, 0);
    lemma_find_from_result(old + piece, "<start_of_turn>"@, 0);
}

/// A system text without white space at its ends is set above the
/// instruction unchanged, separated from it by a blank line.
pub proof fn law_system_text_kept_whole(system: Seq<char>, instruction: Seq<char>)
    requires
        system.len() > 0,
        !is_space(system[0]),
        !is_space(system.last()),
    ensures
        user_content(system, instruction) == system + "\n\n"@ + instruction,
{
    lemma_trim_unchanged(system);
}

/// The instruction always closes the user message, untouched.
pub proof fn law_instruction_ends_user_content(system: Seq<char>, instruction: Seq<char>)
    ensures
        ({
            let u = user_content(system, instruction);
            u.len() >= instruction.len() && u.subrange(
                u.len() - instruction.len(),
                u.len() as int,
            ) == instruction
        }),
{
    let u = user_content(system, instruction);
    assert(u.subrange(u.len() - instruction.len(), u.len() as int) =~= instruction);
}

} // verus!
