use vstd::prelude::*;

use crate::text::{chars_of, same_text};
use crate::thinking::Reply;

verus! {

broadcast use vstd::string::group_string_axioms;

/// Seconds between captures unless configured otherwise.
pub const DEFAULT_INTERVAL_SECS: u64 = 60;

/// Token budget of a turn without thinking.
pub const MAX_TOKENS: usize = 320;

/// Token budget of a turn with thinking: reasoning burns tokens before the answer.
pub const THINKING_MAX_TOKENS: usize = 1024;

/// The persona the model speaks as.
pub const SYSTEM_PROMPT: &'static str = "You are a witty, snarky commentator. You are shown a screenshot of someone's screen. Reply with a short, genuinely funny paragraph about whatever is on screen. No preamble, no quotation marks, just the paragraph.";

/// One entry of the comment feed.
pub struct CommentPayload {
    pub id: u64,
    pub text: String,
    pub thumb: Option<String>,
    pub thinking: Option<String>,
    pub ts: String,
}

// ---------------------------------------------------------------------------
// Settings
// ---------------------------------------------------------------------------

/// A decimal digit.
pub open spec fn is_digit(c: char) -> bool {
    '0' <= c && c <= '9'
}

/// The value of a string of decimal digits.
pub open spec fn decimal_value(s: Seq<char>) -> int
    decreases s.len(),
{
    if s.len() == 0 {
        0
    } else {
        10 * decimal_value(s.drop_last()) + (s.last() as int - '0' as int)
    }
}

/// The digits of an unsigned number: the text without one leading `+`.
pub open spec fn unsigned_digits(s: Seq<char>) -> Seq<char> {
    if s.len() > 0 && s[0] == '+' {
        s.drop_first()
    } else {
        s
    }
}

/// What `str::parse::<u64>` accepts: an optional `+`, then one or more
/// decimal digits whose value fits in a `u64`.
pub open spec fn parse_u64_spec(s: Seq<char>) -> Option<u64> {
    let d = unsigned_digits(s);
    if d.len() > 0 && (forall|i: int| 0 <= i < d.len() ==> #[trigger] is_digit(d[i]))
        && decimal_value(d) <= u64::MAX {
        Some(decimal_value(d) as u64)
    } else {
        None
    }
}

/// Appending digits never lowers the value.
proof fn lemma_decimal_value_grows(d: Seq<char>, i: int)
    requires
        0 <= i <= d.len(),
        forall|k: int| 0 <= k < d.len() ==> #[trigger] is_digit(d[k]),
    ensures
        decimal_value(d.take(i)) <= decimal_value(d),
        0 <= decimal_value(d),
    decreases d.len(),
{
    if d.len() > 0 {
        let p = d.drop_last();
        assert forall|k: int| 0 <= k < p.len() implies #[trigger] is_digit(p[k]) by {
            assert(is_digit(d[k]));
        }
        if i < d.len() {
            lemma_decimal_value_grows(p, i);
            assert(p.take(i) =~= d.take(i));
        } else {
            lemma_decimal_value_grows(p, 0);
            assert(d.take(i) =~= d);
        }
        assert(is_digit(d[d.len() - 1]));
    }
}

/// The `u64` written in `s`, as `str::parse::<u64>` reads it.
pub fn parse_u64(s: &str) -> (r: Option<u64>)
    ensures
        r == parse_u64_spec(s@),
{
    let v = chars_of(s);
    let start: usize = if v.len() > 0 && v[0] == '+' {
        1
    } else {
        0
    };
    let ghost d = unsigned_digits(v@);
    assert(d =~= v@.skip(start as int));
    if start == v.len() {
        return None;
    }
    let mut acc: u64 = 0;
    let mut i: usize = start;
    while i < v.len()
        invariant
            start <= i <= v.len(),
            v@ == s@,
            d == unsigned_digits(s@),
            d == v@.skip(start as int),
            forall|k: int| 0 <= k < i - start ==> #[trigger] is_digit(d[k]),
            acc == decimal_value(d.take(i - start)),
        decreases v.len() - i,
    {
        let c = v[i];
        if !('0' <= c && c <= '9') {
            assert(!is_digit(d[i - start]));
            return None;
        }
        let digit = (c as u32 - '0' as u32) as u64;
        assert(d.take(i - start + 1).drop_last() =~= d.take(i - start));
        if acc > (u64::MAX - digit) / 10 {
            proof {
                let j = i - start + 1;
                assert(decimal_value(d.take(j)) > u64::MAX);
                if forall|k: int| 0 <= k < d.len() ==> #[trigger] is_digit(d[k]) {
                    lemma_decimal_value_grows(d, j);
                }
            }
            return None;
        }
        acc = acc * 10 + digit;
        i += 1;
    }
    assert(d.take(d.len() as int) =~= d);
    Some(acc)
}

/// Seconds between captures: the configured value when it parses as a `u64`,
/// else the default, and never less than one.
pub fn interval_secs(setting: Option<&str>) -> (r: u64)
    ensures
        r == ({
            let secs = match setting {
                Some(v) => match parse_u64_spec(v@) {
                    Some(n) => n,
                    None => DEFAULT_INTERVAL_SECS,
                },
                None => DEFAULT_INTERVAL_SECS,
            };
            if secs < 1 {
                1
            } else {
                secs
            }
        }),
        r >= 1,
{
    let secs = match setting {
        Some(v) => match parse_u64(v) {
            Some(n) => n,
            None => DEFAULT_INTERVAL_SECS,
        },
        None => DEFAULT_INTERVAL_SECS,
    };
    if secs < 1 {
        1
    } else {
        secs
    }
}

/// Whether thinking mode is on. **On by default**; the setting turns it off
/// when it reads `0`, `false`, `FALSE` or `False`.
pub fn thinking_enabled(setting: Option<&str>) -> (r: bool)
    ensures
        r == !(setting matches Some(v) && (v@ == "0"@ || v@ == "false"@ || v@ == "FALSE"@ || v@
            == "False"@)),
{
    match setting {
        Some(v) => !(same_text(v, "0") || same_text(v, "false") || same_text(v, "FALSE")
            || same_text(v, "False")),
        None => true,
    }
}

// ---------------------------------------------------------------------------
// One turn of the feed
// ---------------------------------------------------------------------------

/// Tokens the model may spend on one turn.
pub fn turn_token_budget(thinking: bool) -> (r: usize)
    ensures
        r == (if thinking {
            THINKING_MAX_TOKENS
        } else {
            MAX_TOKENS
        }),
{
    if thinking {
        THINKING_MAX_TOKENS
    } else {
        MAX_TOKENS
    }
}

/// The instruction of a turn: the media marker, where the screenshot goes,
/// then the request for a roast.
pub fn roast_instruction(media_marker: &str) -> (r: String)
    ensures
        r@ == media_marker@ + " Look at this screenshot and roast it in one funny paragraph."@,
{
    let mut out = String::from_str(media_marker);
    out.append(" Look at this screenshot and roast it in one funny paragraph.");
    out
}

/// The next feed entry: it takes the next id, the reply's text and reasoning,
/// the thumbnail of the screen it comments on and the time stamp.
pub fn next_comment(id: &mut u64, reply: Reply, thumb: String, ts: String) -> (r: CommentPayload)
    requires
        *old(id) < u64::MAX,
    ensures
        *final(id) == *old(id) + 1,
        r.id == *final(id),
        r.text@ == reply.text@,
        r.thinking.deep_view() == reply.thinking.deep_view(),
        r.thumb.deep_view() == Some(thumb@),
        r.ts@ == ts@,
{
    *id += 1;
    CommentPayload { id: *id, text: reply.text, thumb: Some(thumb), thinking: reply.thinking, ts }
}

} // verus!
