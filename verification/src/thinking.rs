use vstd::prelude::*;

use crate::text::{
    chars_of, find, is_space, lemma_trim_edges, find_from, find_from_exec, find_exec, lemma_find_from_result,
    lemma_rfind_result, lower, lower_exec, matches_at, matches_at_exec, push_range,
    remove_all, remove_all_exec, rfind, rfind_exec, starts_with, string_of, string_of_range,
    trim, trim_bounds, trim_end, trim_start, lemma_trim_unchanged, lemma_remove_all_absent,
    lemma_lower_keeps_match, lemma_find_from_skip, lemma_rfind_skip, rfind_upto,
};

verus! {

broadcast use vstd::string::group_string_axioms;

/// A generated reply: the final answer, plus the reasoning that produced it
/// (present only when thinking mode was actually used this turn).
#[derive(Clone, Debug)]
pub struct Reply {
    pub text: String,
    pub thinking: Option<String>,
}

impl Reply {
    /// The reply as plain character sequences.
    pub open spec fn view_parts(&self) -> (Seq<char>, Option<Seq<char>>) {
        (self.text@, self.thinking.deep_view())
    }
}

// ---------------------------------------------------------------------------
// The thought/answer split, stated over character sequences
// ---------------------------------------------------------------------------

/// Where the first thought-channel opener starts (either spelling), in the
/// lower-cased output.
pub open spec fn thought_open(l: Seq<char>) -> Option<int> {
    match find(l, "<|channel|thought"@) {
        Some(i) => Some(i),
        None => find(l, "<|channel>thought"@),
    }
}

/// Where the last final-channel opener starts (either spelling), in the
/// lower-cased output.
pub open spec fn final_open(l: Seq<char>) -> Option<int> {
    match rfind(l, "<|channel|final"@) {
        Some(i) => Some(i),
        None => rfind(l, "<|channel>final"@),
    }
}

/// The first channel-close marker at or after `from`, of either spelling
/// (`<channel|>` or `<|channel|>`), in the lower-cased output.
pub open spec fn close_after(l: Seq<char>, from: int) -> Option<int> {
    match (find_from(l, "<channel|>"@, from), find_from(l, "<|channel|>"@, from)) {
        (Some(a), Some(b)) => Some(if a <= b {
            a
        } else {
            b
        }),
        (Some(a), None) => Some(a),
        (None, b) => b,
    }
}

/// How many characters the close marker at `pos` of the lower-cased output
/// spans: ten for `<channel|>`, eleven for `<|channel|>`.
pub open spec fn close_len_at(l: Seq<char>, pos: int) -> int {
    if starts_with(l.skip(pos), "<channel|>"@) {
        10
    } else {
        11
    }
}

/// Where a channel's content begins: just past the first newline at or after
/// the opener, or at the opener itself when no newline follows.
pub open spec fn content_after(r: Seq<char>, open: int) -> int {
    match find_from(r, "\n"@, open) {
        Some(n) => n + 1,
        None => open,
    }
}

/// The raw answer and the (trimmed) raw reasoning found in thinking-mode output.
pub open spec fn channel_parts(r: Seq<char>) -> (Seq<char>, Option<Seq<char>>) {
    let l = lower(r);
    match (thought_open(l), final_open(l)) {
        (Some(to), Some(fo)) => if to < fo {
            let cstart = content_after(r, to);
            let reasoning = match close_after(l, cstart) {
                Some(c) => Some(trim(r.subrange(cstart, c))),
                None => None,
            };
            let astart = content_after(r, fo);
            let answer = match close_after(l, astart) {
                Some(c) => r.subrange(astart, c),
                None => r.subrange(astart, r.len() as int),
            };
            (answer, reasoning)
        } else {
            (r, None)
        },
        (Some(to), None) => {
            let cstart = content_after(r, to);
            match close_after(l, cstart) {
                Some(c) => (
                    r.subrange(c + close_len_at(l, c), r.len() as int),
                    Some(trim(r.subrange(cstart, c))),
                ),
                None => (Seq::empty(), Some(trim(r.subrange(cstart, r.len() as int)))),
            }
        },
        (None, Some(fo)) => {
            let astart = content_after(r, fo);
            let answer = match close_after(l, astart) {
                Some(c) => r.subrange(astart, c),
                None => r.subrange(astart, r.len() as int),
            };
            (answer, None)
        },
        (None, None) => (r, None),
    }
}

/// Markers taken out of both parts, then the surrounding white space.
pub open spec fn clean(s: Seq<char>) -> Seq<char> {
    trim(remove_all(remove_all(s, "<channel|>"@), "<|channel|>"@))
}

/// The reply that `split_thinking` gives for the raw model output `r`.
pub open spec fn split_spec(r: Seq<char>, thinking: bool) -> (Seq<char>, Option<Seq<char>>) {
    if !thinking {
        (trim(r), None)
    } else {
        let (answer, reasoning) = channel_parts(r);
        let reasoning = match reasoning {
            Some(x) => if clean(x).len() > 0 {
                Some(clean(x))
            } else {
                None
            },
            None => None,
        };
        (clean(answer), reasoning)
    }
}

// ---------------------------------------------------------------------------
// Executable split
// ---------------------------------------------------------------------------

/// First of two searches, as `Option::or_else` chains them.
fn first_found(a: Option<usize>, b: Option<usize>) -> (r: Option<usize>)
    ensures
        r == (match a {
            Some(i) => Some(i),
            None => b,
        }),
{
    match a {
        Some(i) => Some(i),
        None => b,
    }
}

fn thought_open_exec(l: &Vec<char>) -> (r: Option<usize>)
    ensures
        r matches Some(i) ==> thought_open(l@) == Some(i as int),
        r is None ==> thought_open(l@) is None,
{
    let p1 = chars_of("<|channel|thought");
    let p2 = chars_of("<|channel>thought");
    proof {
        reveal_strlit("<|channel|thought");
        reveal_strlit("<|channel>thought");
    }
    match find_exec(l, &p1) {
        Some(i) => Some(i),
        None => find_exec(l, &p2),
    }
}

fn final_open_exec(l: &Vec<char>) -> (r: Option<usize>)
    ensures
        r matches Some(i) ==> final_open(l@) == Some(i as int),
        r is None ==> final_open(l@) is None,
{
    let p1 = chars_of("<|channel|final");
    let p2 = chars_of("<|channel>final");
    proof {
        reveal_strlit("<|channel|final");
        reveal_strlit("<|channel>final");
    }
    match rfind_exec(l, &p1) {
        Some(i) => Some(i),
        None => rfind_exec(l, &p2),
    }
}

fn close_after_exec(l: &Vec<char>, from: usize) -> (r: Option<usize>)
    ensures
        r matches Some(i) ==> close_after(l@, from as int) == Some(i as int),
        r is None ==> close_after(l@, from as int) is None,
{
    let p1 = chars_of("<channel|>");
    let p2 = chars_of("<|channel|>");
    proof {
        reveal_strlit("<channel|>");
        reveal_strlit("<|channel|>");
    }
    match (find_from_exec(l, &p1, from), find_from_exec(l, &p2, from)) {
        (Some(a), Some(b)) => Some(if a <= b {
            a
        } else {
            b
        }),
        (Some(a), None) => Some(a),
        (None, b) => b,
    }
}

fn close_len_exec(l: &Vec<char>, pos: usize) -> (k: usize)
    requires
        pos <= l.len(),
    ensures
        k == close_len_at(l@, pos as int),
{
    let p = chars_of("<channel|>");
    let m = matches_at_exec(l, &p, pos);
    proof {
        let t = l@.skip(pos as int);
        if m {
            assert(t.subrange(0, p@.len() as int) =~= l@.subrange(pos as int, pos + p@.len()));
        } else if matches_at(t, p@, 0) {
            assert(t.subrange(0, p@.len() as int) =~= l@.subrange(pos as int, pos + p@.len()));
        }
    }
    if m {
        10
    } else {
        11
    }
}

fn content_after_exec(r: &Vec<char>, open: usize) -> (k: usize)
    requires
        open <= r.len(),
    ensures
        k == content_after(r@, open as int),
        open <= k <= r.len(),
{
    let nl = chars_of("\n");
    proof {
        reveal_strlit("\n");
    }
    match find_from_exec(r, &nl, open) {
        Some(n) => {
            proof {
                lemma_find_from_result(r@, nl@, open as int);
            }
            n + 1
        },
        None => open,
    }
}

/// `v[from..to]` with the close markers taken out and white space trimmed.
fn clean_range(v: &Vec<char>, from: usize, to: usize) -> (r: Vec<char>)
    requires
        from <= to <= v.len(),
    ensures
        r@ == clean(v@.subrange(from as int, to as int)),
{
    let mut part: Vec<char> = Vec::new();
    push_range(&mut part, v, from, to);
    assert(part@ =~= v@.subrange(from as int, to as int));
    let p1 = chars_of("<channel|>");
    let p2 = chars_of("<|channel|>");
    proof {
        reveal_strlit("<channel|>");
        reveal_strlit("<|channel|>");
    }
    let once = remove_all_exec(&part, &p1);
    let twice = remove_all_exec(&once, &p2);
    let (a, b) = trim_bounds(&twice, 0, twice.len());
    assert(twice@.subrange(0, twice@.len() as int) =~= twice@);
    let mut out: Vec<char> = Vec::new();
    push_range(&mut out, &twice, a, b);
    assert(out@ =~= twice@.subrange(a as int, b as int));
    out
}

/// The reasoning of a thought block `v[from..to]`: trimmed, cleaned, and kept
/// only when something is left.
fn reasoning_of(v: &Vec<char>, from: usize, to: usize) -> (r: Option<String>)
    requires
        from <= to <= v.len(),
    ensures
        r.deep_view() == (if clean(trim(v@.subrange(from as int, to as int))).len() > 0 {
            Some(clean(trim(v@.subrange(from as int, to as int))))
        } else {
            None
        }),
{
    let (a, b) = trim_bounds(v, from, to);
    let c = clean_range(v, a, b);
    if c.len() > 0 {
        Some(string_of(&c))
    } else {
        None
    }
}

/// Split a thinking-mode output into (answer, reasoning). Gemma 4 emits
/// reasoning in a thought channel, then the answer:
///   `<|channel|thought\n … <channel|> <|channel|final\n ANSWER <channel|>`
/// Token spellings vary a touch across templates/quantizations, so markers
/// match loosely and without regard to ASCII case (`<|channel|…`/`<|channel>…`
/// open, `<channel|>`/`<|channel|>` close). The reasoning is `None` when
/// thinking was off or no thought channel was produced. A block ends at the
/// first close marker of either spelling at or after its start.
pub fn split_thinking(raw: String, thinking: bool) -> (r: Reply)
    ensures
        r.view_parts() == split_spec(raw@, thinking),
{
    let rv = chars_of(raw.as_str());
    if !thinking {
        let (a, b) = trim_bounds(&rv, 0, rv.len());
        assert(rv@.subrange(0, rv@.len() as int) =~= rv@);
        return Reply { text: string_of_range(&rv, a, b), thinking: None };
    }
    let lv = lower_exec(&rv);
    let ghost r = rv@;
    let ghost l = lv@;
    let thought = thought_open_exec(&lv);
    let fin = final_open_exec(&lv);
    proof {
        lemma_find_from_result(l, "<|channel|thought"@, 0);
        lemma_find_from_result(l, "<|channel>thought"@, 0);
        lemma_rfind_result(l, "<|channel|final"@, l.len() - "<|channel|final"@.len());
        lemma_rfind_result(l, "<|channel>final"@, l.len() - "<|channel>final"@.len());
    }
    let (answer, reasoning): (Vec<char>, Option<String>) = match (thought, fin) {
        (Some(to), Some(fo)) => {
            if to < fo {
                let cstart = content_after_exec(&rv, to);
                let reasoning = match close_after_exec(&lv, cstart) {
                    Some(c) => {
                        proof {
                            lemma_close_in_range(l, cstart as int);
                        }
                        reasoning_of(&rv, cstart, c)
                    },
                    None => None,
                };
                let astart = content_after_exec(&rv, fo);
                let end = match close_after_exec(&lv, astart) {
                    Some(c) => {
                        proof {
                            lemma_close_in_range(l, astart as int);
                        }
                        c
                    },
                    None => rv.len(),
                };
                (clean_range(&rv, astart, end), reasoning)
            } else {
                (clean_range(&rv, 0, rv.len()), None)
            }
        },
        (Some(to), None) => {
            let cstart = content_after_exec(&rv, to);
            match close_after_exec(&lv, cstart) {
                Some(c) => {
                    proof {
                        lemma_close_in_range(l, cstart as int);
                    }
                    let k = close_len_exec(&lv, c);
                    (clean_range(&rv, c + k, rv.len()), reasoning_of(&rv, cstart, c))
                },
                None => {
                    let empty: Vec<char> = Vec::new();
                    proof {
                        assert(clean(Seq::<char>::empty()) =~= Seq::<char>::empty()) by {
                            reveal_with_fuel(remove_all, 2);
                            reveal_with_fuel(trim_start, 2);
                            reveal_with_fuel(trim_end, 2);
                        }
                    }
                    (empty, reasoning_of(&rv, cstart, rv.len()))
                },
            }
        },
        (None, Some(fo)) => {
            let astart = content_after_exec(&rv, fo);
            let end = match close_after_exec(&lv, astart) {
                Some(c) => {
                    proof {
                        lemma_close_in_range(l, astart as int);
                    }
                    c
                },
                None => rv.len(),
            };
            (clean_range(&rv, astart, end), None)
        },
        (None, None) => (clean_range(&rv, 0, rv.len()), None),
    };
    proof {
        assert(r.subrange(0, r.len() as int) =~= r);
    }
    Reply { text: string_of(&answer), thinking: reasoning }
}

/// A close marker found from `from` starts at or after `from`, and the marker
/// it is taken to be lies within the text.
proof fn lemma_close_in_range(l: Seq<char>, from: int)
    requires
        0 <= from,
    ensures
        close_after(l, from) matches Some(c) ==> from <= c && c + close_len_at(l, c) <= l.len(),
{
    reveal_strlit("<channel|>");
    reveal_strlit("<|channel|>");
    lemma_find_from_result(l, "<channel|>"@, from);
    lemma_find_from_result(l, "<|channel|>"@, from);
    if let Some(c) = close_after(l, from) {
        let t = l.skip(c);
        if matches_at(l, "<channel|>"@, c) {
            assert(t.subrange(0, 10) =~= l.subrange(c, c + 10));
        } else {
            assert(matches_at(l, "<|channel|>"@, c));
            if starts_with(t, "<channel|>"@) {
                assert(t.subrange(0, 10) =~= l.subrange(c, c + 10));
            }
        }
    }
}

// ---------------------------------------------------------------------------
// Laws
// ---------------------------------------------------------------------------

/// With thinking off, the answer is the trimmed output and there is no
/// reasoning.
pub proof fn law_thinking_off_plain_answer(raw: Seq<char>)
    ensures
        split_spec(raw, false) == (trim(raw), Option::<Seq<char>>::None),
{
}

/// When no thought channel was produced (no opener in either spelling, in any
/// ASCII case), there is no reasoning.
pub proof fn law_no_thought_channel_no_reasoning(raw: Seq<char>, thinking: bool)
    requires
        thought_open(lower(raw)) is None,
    ensures
        split_spec(raw, thinking).1 is None,
{
}

/// The answer carries no white space at either end; reasoning, when there is
/// any, is non-empty and carries no white space at either end either.
pub proof fn law_parts_trimmed(raw: Seq<char>, thinking: bool)
    ensures
        ({
            let text = split_spec(raw, thinking).0;
            text.len() > 0 ==> !is_space(text[0]) && !is_space(text.last())
        }),
        split_spec(raw, thinking).1 matches Some(x) ==> x.len() > 0 && !is_space(x[0])
            && !is_space(x.last()),
{
    let (answer, reasoning) = channel_parts(raw);
    lemma_trim_edges(raw);
    lemma_trim_edges(remove_all(remove_all(answer, "<channel|>"@), "<|channel|>"@));
    if let Some(x) = reasoning {
        lemma_trim_edges(remove_all(remove_all(x, "<channel|>"@), "<|channel|>"@));
    }
}

// ---------------------------------------------------------------------------
// The thought block is the reasoning
// ---------------------------------------------------------------------------

/// Thinking output made of a thought block holding `body`, closed by
/// `<channel|>`, then `rest`.
pub open spec fn thought_then(body: Seq<char>, rest: Seq<char>) -> Seq<char> {
    "<|channel>thought\n"@ + body + "<channel|>"@ + rest
}

/// Thinking output made of a thought block holding `body`, closed by
/// `<channel|>`, then a final channel holding `answer`.
pub open spec fn thought_and_final(body: Seq<char>, answer: Seq<char>) -> Seq<char> {
    "<|channel>thought\n"@ + body + "<channel|>"@ + "<|channel>final\n"@ + answer
}

/// No close marker of either spelling begins in `[from, to)` of `l`.
pub open spec fn no_close_between(l: Seq<char>, from: int, to: int) -> bool {
    &&& forall|j: int| from <= j < to ==> !#[trigger] matches_at(l, "<channel|>"@, j)
    &&& forall|j: int| from <= j < to ==> !#[trigger] matches_at(l, "<|channel|>"@, j)
}

proof fn lemma_markers_lower_case()
    ensures
        lower("<channel|>"@) == "<channel|>"@,
        lower("<|channel|>"@) == "<|channel|>"@,
        lower("<|channel>thought"@) == "<|channel>thought"@,
        lower("<|channel>final"@) == "<|channel>final"@,
{
    reveal_strlit("<channel|>");
    reveal_strlit("<|channel|>");
    reveal_strlit("<|channel>thought");
    reveal_strlit("<|channel>final");
    assert(lower("<channel|>"@) =~= "<channel|>"@);
    assert(lower("<|channel|>"@) =~= "<|channel|>"@);
    assert(lower("<|channel>thought"@) =~= "<|channel>thought"@);
    assert(lower("<|channel>final"@) =~= "<|channel>final"@);
}

/// The close search from `from` stops at a `<channel|>` at `c` when no close
/// marker begins before it.
proof fn lemma_close_found_at(l: Seq<char>, from: int, c: int)
    requires
        0 <= from <= c,
        matches_at(l, "<channel|>"@, c),
        no_close_between(l, from, c),
    ensures
        close_after(l, from) == Some(c),
        close_len_at(l, c) == 10,
{
    reveal_strlit("<channel|>");
    reveal_strlit("<|channel|>");
    let c1 = "<channel|>"@;
    let c2 = "<|channel|>"@;
    lemma_find_from_skip(l, c1, from, c);
    assert(find_from(l, c1, c) == Some(c));
    lemma_find_from_result(l, c2, from);
    if let Some(b) = find_from(l, c2, from) {
        if b < c {
            assert(!matches_at(l, c2, b));
        }
    }
    assert(l[c + 1] == l.subrange(c, c + 10)[1]);
    if matches_at(l, c2, c) {
        assert(l[c + 1] == l.subrange(c, c + 11)[1]);
    }
    assert(l.skip(c).subrange(0, 10) =~= l.subrange(c, c + 10));
}

/// The close search from `from` finds nothing when no close marker begins at
/// or after `from`.
proof fn lemma_close_absent(l: Seq<char>, from: int)
    requires
        0 <= from,
        no_close_between(l, from, l.len() as int),
    ensures
        close_after(l, from) is None,
{
    reveal_strlit("<channel|>");
    reveal_strlit("<|channel|>");
    lemma_find_from_result(l, "<channel|>"@, from);
    lemma_find_from_result(l, "<|channel|>"@, from);
}

/// Content starts just past the first newline at or after `from`.
proof fn lemma_content_after_newline(r: Seq<char>, from: int, n: int)
    requires
        0 <= from <= n < r.len(),
        r[n] == '\n',
        forall|j: int| from <= j < n ==> r[j] != '\n',
    ensures
        content_after(r, from) == n + 1,
{
    reveal_strlit("\n");
    let nl = "\n"@;
    assert forall|j: int| from <= j < n implies !matches_at(r, nl, j) by {
        if matches_at(r, nl, j) {
            assert(r.subrange(j, j + 1)[0] == r[j]);
        }
    }
    lemma_find_from_skip(r, nl, from, n);
    assert(r.subrange(n, n + 1) =~= nl);
}

/// A block free of close markers (in the lower-cased output) holds none in
/// its own text either, so cleaning leaves text without white space at its
/// ends as it is.
proof fn lemma_block_clean(r: Seq<char>, from: int, body: Seq<char>)
    requires
        0 <= from,
        from + body.len() <= r.len(),
        r.subrange(from, from + body.len()) == body,
        no_close_between(lower(r), from, from + body.len()),
        body.len() == 0 || (!is_space(body[0]) && !is_space(body.last())),
    ensures
        clean(body) == body,
{
    lemma_markers_lower_case();
    reveal_strlit("<channel|>");
    reveal_strlit("<|channel|>");
    let c1 = "<channel|>"@;
    let c2 = "<|channel|>"@;
    let b = body.len() as int;
    assert forall|k: int| 0 <= k < b implies r[from + k] == body[k] by {
        assert(r.subrange(from, from + b)[k] == r[from + k]);
    }
    assert forall|j: int| !#[trigger] matches_at(body, c1, j) by {
        if matches_at(body, c1, j) {
            assert(r.subrange(from + j, from + j + 10) =~= body.subrange(j, j + 10));
            lemma_lower_keeps_match(r, c1, from + j);
        }
    }
    lemma_remove_all_absent(body, c1);
    assert forall|j: int| !#[trigger] matches_at(body, c2, j) by {
        if matches_at(body, c2, j) {
            assert(r.subrange(from + j, from + j + 11) =~= body.subrange(j, j + 11));
            lemma_lower_keeps_match(r, c2, from + j);
        }
    }
    lemma_remove_all_absent(body, c2);
    lemma_trim_unchanged(body);
}

/// The opener `<|channel>thought` at the start is the thought opener when the
/// other spelling occurs nowhere.
proof fn lemma_thought_at_start(r: Seq<char>)
    requires
        r.len() >= 17,
        r.subrange(0, 17) == "<|channel>thought"@,
        forall|j: int| !#[trigger] matches_at(lower(r), "<|channel|thought"@, j),
    ensures
        thought_open(lower(r)) == Some(0int),
{
    reveal_strlit("<|channel>thought");
    lemma_markers_lower_case();
    lemma_find_from_result(lower(r), "<|channel|thought"@, 0);
    lemma_lower_keeps_match(r, "<|channel>thought"@, 0);
}

/// With thinking on, a thought block closed by `<channel|>` and followed by
/// no final channel gives its whole content as the reasoning, newlines and
/// all, and what follows the close marker as the answer. The block's content
/// here has no white space at its ends, and no close marker begins inside it.
pub proof fn law_thought_block_is_the_reasoning(body: Seq<char>, rest: Seq<char>)
    requires
        body.len() > 0,
        !is_space(body[0]),
        !is_space(body.last()),
        forall|j: int| !#[trigger] matches_at(lower(thought_then(body, rest)), "<|channel|thought"@, j),
        forall|j: int| !#[trigger] matches_at(lower(thought_then(body, rest)), "<|channel|final"@, j),
        forall|j: int| !#[trigger] matches_at(lower(thought_then(body, rest)), "<|channel>final"@, j),
        no_close_between(lower(thought_then(body, rest)), 18, 18 + body.len() as int),
    ensures
        split_spec(thought_then(body, rest), true) == (clean(rest), Some(body)),
{
    reveal_strlit("<|channel>thought\n");
    reveal_strlit("<|channel>thought");
    reveal_strlit("<channel|>");
    reveal_strlit("<|channel|final");
    reveal_strlit("<|channel>final");
    lemma_markers_lower_case();
    let r = thought_then(body, rest);
    let l = lower(r);
    let c: int = 18 + body.len() as int;
    assert(r.subrange(0, 17) =~= "<|channel>thought"@);
    lemma_thought_at_start(r);
    lemma_rfind_result(l, "<|channel|final"@, l.len() - 15);
    lemma_rfind_result(l, "<|channel>final"@, l.len() - 15);
    assert(final_open(l) is None);
    assert(r[17] == '\n');
    lemma_content_after_newline(r, 0, 17);
    assert(r.subrange(c, c + 10) =~= "<channel|>"@);
    lemma_lower_keeps_match(r, "<channel|>"@, c);
    lemma_close_found_at(l, 18, c);
    assert(r.subrange(18, c) =~= body);
    lemma_trim_unchanged(body);
    lemma_block_clean(r, 18, body);
    assert(r.subrange(c + 10, r.len() as int) =~= rest);
}

/// With thinking on, a thought block closed by `<channel|>` and followed by a
/// final channel gives the block's whole content as the reasoning and the
/// final channel's content as the answer. The block's content has no white
/// space at its ends and no close marker begins inside it or after the final
/// opener; that opener is the last one and the only spelling used.
pub proof fn law_thought_and_final_channels(body: Seq<char>, answer: Seq<char>)
    requires
        body.len() > 0,
        !is_space(body[0]),
        !is_space(body.last()),
        forall|j: int|
            !#[trigger] matches_at(lower(thought_and_final(body, answer)), "<|channel|thought"@, j),
        forall|j: int|
            !#[trigger] matches_at(lower(thought_and_final(body, answer)), "<|channel|final"@, j),
        forall|j: int|
            j > 28 + body.len() as int ==> !#[trigger] matches_at(
                lower(thought_and_final(body, answer)),
                "<|channel>final"@,
                j,
            ),
        no_close_between(lower(thought_and_final(body, answer)), 18, 18 + body.len() as int),
        no_close_between(
            lower(thought_and_final(body, answer)),
            44 + body.len() as int,
            thought_and_final(body, answer).len() as int,
        ),
    ensures
        split_spec(thought_and_final(body, answer), true) == (clean(answer), Some(body)),
{
    reveal_strlit("<|channel>thought\n");
    reveal_strlit("<|channel>thought");
    reveal_strlit("<channel|>");
    reveal_strlit("<|channel|final");
    reveal_strlit("<|channel>final");
    reveal_strlit("<|channel>final\n");
    lemma_markers_lower_case();
    let r = thought_and_final(body, answer);
    let l = lower(r);
    let c: int = 18 + body.len() as int;
    let p: int = c + 10;
    assert(r.subrange(0, 17) =~= "<|channel>thought"@);
    lemma_thought_at_start(r);
    lemma_rfind_result(l, "<|channel|final"@, l.len() - 15);
    assert(r.subrange(p, p + 15) =~= "<|channel>final"@);
    lemma_lower_keeps_match(r, "<|channel>final"@, p);
    lemma_rfind_skip(l, "<|channel>final"@, p, l.len() - 15);
    assert(final_open(l) == Some(p));
    assert(r[17] == '\n');
    lemma_content_after_newline(r, 0, 17);
    assert(r.subrange(c, c + 10) =~= "<channel|>"@);
    lemma_lower_keeps_match(r, "<channel|>"@, c);
    lemma_close_found_at(l, 18, c);
    assert(r.subrange(18, c) =~= body);
    lemma_trim_unchanged(body);
    lemma_block_clean(r, 18, body);
    assert(r[p + 15] == '\n');
    lemma_content_after_newline(r, p, p + 15);
    lemma_close_absent(l, p + 16);
    assert(r.subrange(p + 16, r.len() as int) =~= answer);
}

} // verus!
