//! Transcript refinement by a local language model: the prompt it is given, its
//! token budget, and how its output is accepted or replaced by the raw transcript.
use vstd::prelude::*;

use crate::text::{
    append_chars, append_str, before_first, byte_len, chars_of, prefix_before, string_of, trim,
    trim_chars, utf8_len,
};

verus! {

/// File name of the refinement model.
pub const MODEL_NAME: &'static str = "qwen2.5-0.5b-instruct-q4_k_m.gguf";

/// Where the refinement model is downloaded from.
pub const MODEL_URL: &'static str =
    "https://huggingface.co/Qwen/Qwen2.5-0.5B-Instruct-GGUF/resolve/main/qwen2.5-0.5b-instruct-q4_k_m.gguf";

/// Size of the model context, in tokens.
pub const CONTEXT_TOKENS: u32 = 2048;

pub const MIN_GENERATION_TOKENS: usize = 32;

pub const MAX_GENERATION_TOKENS: usize = 192;

/// What one run of the model produced.
pub enum InferenceOutcome {
    /// The text the model generated.
    Generated(String),
    /// Inference failed with this error.
    Failed(String),
    /// Inference panicked.
    Panicked,
}

/// The transcript refinement step.
pub struct RefinementEngine;

/// What refining a transcript asks for next.
#[derive(Debug)]
pub enum RefinementStep {
    /// Refinement is over: insert this text.
    Done(String),
    /// Run the model on this transcript, then hand its outcome to
    /// `RefinementEngine::after_inference`.
    Infer(String),
}

/// The instructions that precede the transcript in the prompt.
pub open spec fn prompt_head() -> Seq<char> {
    "<|im_start|>system\nYou rewrite speech transcripts. Remove filler words like \"um\", \"uh\", and \"like\" only when used as filler. Add punctuation and capitalization. Preserve wording and meaning. Output only the cleaned transcript. If unsure, return the original text unchanged.\n<|im_end|>\n<|im_start|>user\nClean this transcript:\n"@
}

/// What follows the transcript in the prompt.
pub open spec fn prompt_tail() -> Seq<char> {
    "\n<|im_end|>\n<|im_start|>assistant\n"@
}

/// `s` without leading characters `c`.
pub open spec fn strip_start(s: Seq<char>, c: char) -> Seq<char>
    decreases s.len(),
{
    if s.len() > 0 && s[0] == c {
        strip_start(s.drop_first(), c)
    } else {
        s
    }
}

/// `s` without trailing characters `c`.
pub open spec fn strip_end(s: Seq<char>, c: char) -> Seq<char>
    decreases s.len(),
{
    if s.len() > 0 && s.last() == c {
        strip_end(s.drop_last(), c)
    } else {
        s
    }
}

/// `str::trim_matches(c)`.
pub open spec fn strip_both(s: Seq<char>, c: char) -> Seq<char> {
    strip_end(strip_start(s, c), c)
}

/// The generated text cut at the first end-of-turn or end-of-text marker, trimmed of
/// whitespace and of surrounding double quotes.
pub open spec fn cleaned_generation(generated: Seq<char>) -> Seq<char> {
    let cut = before_first(before_first(generated, "<|im_end|>"@), "<|endoftext|>"@);
    trim(strip_both(trim(cut), '"'))
}

/// `str::len` of a string held in memory (whose byte length fits in `usize`).
pub open spec fn sat_byte_len(s: Seq<char>) -> nat {
    if byte_len(s) > usize::MAX {
        usize::MAX as nat
    } else {
        byte_len(s)
    }
}

/// The largest accepted output length, in bytes, for a raw transcript of `raw_bytes` bytes.
pub open spec fn max_reasonable_len(raw_bytes: nat) -> int {
    let tripled: int = if 3 * raw_bytes > usize::MAX { usize::MAX as int } else { 3 * raw_bytes as int };
    if tripled + 120 > usize::MAX {
        usize::MAX as int
    } else {
        tripled + 120
    }
}

/// The accepted output for a generation, if any.
pub open spec fn accepted_output(raw: Seq<char>, generated: Seq<char>) -> Option<Seq<char>> {
    let cleaned = cleaned_generation(generated);
    if cleaned.len() == 0 {
        None
    } else if sat_byte_len(cleaned) > max_reasonable_len(sat_byte_len(raw)) {
        None
    } else {
        Some(cleaned)
    }
}

/// The text that refinement returns for `raw` when the model produced `outcome`.
pub open spec fn refined_text(raw: Seq<char>, outcome: InferenceOutcome) -> Seq<char> {
    match outcome {
        InferenceOutcome::Generated(g) => match accepted_output(raw, g@) {
            Some(c) => c,
            None => raw,
        },
        _ => raw,
    }
}

/// The generation budget for a transcript of `n` characters: a quarter of it,
/// rounded up, plus 24, kept within the minimum and maximum.
pub open spec fn generation_budget(n: nat) -> nat {
    let estimate = (n + 3) / 4 + 24;
    if estimate < MIN_GENERATION_TOKENS {
        MIN_GENERATION_TOKENS as nat
    } else if estimate > MAX_GENERATION_TOKENS {
        MAX_GENERATION_TOKENS as nat
    } else {
        estimate as nat
    }
}

proof fn lemma_strip_start_skip(s: Seq<char>, c: char, i: int)
    requires
        0 <= i <= s.len(),
        forall|k: int| 0 <= k < i ==> #[trigger] s[k] == c,
    ensures
        strip_start(s, c) == strip_start(s.skip(i), c),
    decreases i,
{
    if i > 0 {
        assert(s.drop_first().skip(i - 1) =~= s.skip(i));
        assert forall|k: int| 0 <= k < i - 1 implies #[trigger] s.drop_first()[k] == c by {
            assert(s.drop_first()[k] == s[k + 1]);
        }
        lemma_strip_start_skip(s.drop_first(), c, i - 1);
    } else {
        assert(s.skip(0) =~= s);
    }
}

proof fn lemma_strip_end_take(s: Seq<char>, c: char, j: int)
    requires
        0 <= j <= s.len(),
        forall|k: int| j <= k < s.len() ==> #[trigger] s[k] == c,
    ensures
        strip_end(s, c) == strip_end(s.take(j), c),
    decreases s.len() - j,
{
    if j < s.len() {
        assert(s.drop_last().take(j) =~= s.take(j));
        lemma_strip_end_take(s.drop_last(), c, j);
    } else {
        assert(s.take(j) =~= s);
    }
}

/// `str::trim_matches(c)` on characters.
pub fn strip_char(v: &[char], c: char) -> (r: Vec<char>)
    ensures
        r@ == strip_both(v@, c),
{
    let n = v.len();
    let mut i: usize = 0;
    while i < n && v[i] == c
        invariant
            i <= n,
            n == v.len(),
            forall|k: int| 0 <= k < i ==> #[trigger] v@[k] == c,
        decreases n - i,
    {
        i += 1;
    }
    proof {
        lemma_strip_start_skip(v@, c, i as int);
    }
    let ghost rest = v@.skip(i as int);
    assert(i == n || rest[0] != c);
    assert(strip_start(v@, c) == rest);
    let mut j: usize = n;
    while j > i && v[j - 1] == c
        invariant
            i <= j <= n,
            n == v.len(),
            forall|k: int| j <= k < n ==> #[trigger] v@[k] == c,
        decreases j,
    {
        j -= 1;
    }
    proof {
        let jj = (j - i) as int;
        assert forall|k: int| jj <= k < rest.len() implies #[trigger] rest[k] == c by {
            assert(rest[k] == v@[k + i]);
        }
        lemma_strip_end_take(rest, c, jj);
        assert(rest.take(jj) =~= v@.subrange(i as int, j as int));
        if jj > 0 {
            assert(rest.take(jj).last() == v@[j - 1]);
        }
    }
    let mut r: Vec<char> = Vec::new();
    let mut k: usize = i;
    while k < j
        invariant
            i <= k <= j,
            j <= n,
            n == v.len(),
            r@ == v@.subrange(i as int, k as int),
        decreases j - k,
    {
        r.push(v[k]);
        k += 1;
        assert(r@ =~= v@.subrange(i as int, k as int));
    }
    r
}

impl RefinementEngine {
    /// The chat prompt asking the model to clean `raw_text` (trimmed).
    pub fn build_prompt(raw_text: &str) -> (r: String)
        ensures
            r@ == prompt_head() + trim(raw_text@) + prompt_tail(),
    {
        let raw = chars_of(raw_text);
        let trimmed = trim_chars(raw.as_slice());
        let mut out: Vec<char> = Vec::new();
        append_str(
            &mut out,
            "<|im_start|>system\nYou rewrite speech transcripts. Remove filler words like \"um\", \"uh\", and \"like\" only when used as filler. Add punctuation and capitalization. Preserve wording and meaning. Output only the cleaned transcript. If unsure, return the original text unchanged.\n<|im_end|>\n<|im_start|>user\nClean this transcript:\n",
        );
        append_chars(&mut out, trimmed.as_slice());
        append_str(&mut out, "\n<|im_end|>\n<|im_start|>assistant\n");
        string_of(out.as_slice())
    }

    /// A transcript that is empty or only whitespace is not refined.
    pub fn should_skip(raw_text: &str) -> (r: bool)
        ensures
            r == (trim(raw_text@).len() == 0),
    {
        let raw = chars_of(raw_text);
        trim_chars(raw.as_slice()).len() == 0
    }

    /// How many tokens the model may generate for `raw_text`.
    pub fn max_new_tokens(raw_text: &str) -> (r: usize)
        ensures
            r == generation_budget(raw_text@.len()),
            MIN_GENERATION_TOKENS <= r <= MAX_GENERATION_TOKENS,
    {
        let n = chars_of(raw_text).len();
        let estimate = n / 4 + if n % 4 == 0 { 0 } else { 1 };
        assert(estimate == (n + 3) / 4);
        if estimate + 24 < MIN_GENERATION_TOKENS {
            MIN_GENERATION_TOKENS
        } else if estimate > MAX_GENERATION_TOKENS - 24 {
            MAX_GENERATION_TOKENS
        } else {
            estimate + 24
        }
    }

    /// Whether a prompt of `prompt_tokens` tokens leaves room in the context for
    /// `max_new_tokens` more and the end token.
    pub fn prompt_fits_context(prompt_tokens: usize, max_new_tokens: usize) -> (r: bool)
        ensures
            r == (prompt_tokens + max_new_tokens + 1 < CONTEXT_TOKENS),
    {
        prompt_tokens < CONTEXT_TOKENS as usize && max_new_tokens < CONTEXT_TOKENS as usize
            && prompt_tokens + max_new_tokens + 1 < CONTEXT_TOKENS as usize
    }

    /// The model output to insert, or `None` when the raw transcript should be used:
    /// the output is cut at the first end marker and trimmed of whitespace and
    /// quotes; it is rejected when empty or longer than three times the raw
    /// transcript plus 120 bytes.
    pub fn finalize_output(raw_text: &str, generated: &str) -> (r: Option<String>)
        ensures
            match r {
                Some(s) => accepted_output(raw_text@, generated@) == Some(s@),
                None => accepted_output(raw_text@, generated@) is None,
            },
    {
        let g = chars_of(generated);
        let im_end = chars_of("<|im_end|>");
        let end_of_text = chars_of("<|endoftext|>");
        let first_cut = prefix_before(g.as_slice(), im_end.as_slice());
        let cut = prefix_before(first_cut.as_slice(), end_of_text.as_slice());
        let t1 = trim_chars(cut.as_slice());
        let unquoted = strip_char(t1.as_slice(), '"');
        let cleaned = trim_chars(unquoted.as_slice());
        if cleaned.len() == 0 {
            return None;
        }
        let raw = chars_of(raw_text);
        let raw_len = utf8_len(raw.as_slice());
        let tripled = if raw_len > usize::MAX / 3 {
            usize::MAX
        } else {
            raw_len * 3
        };
        let max_len = tripled.saturating_add(120);
        let cleaned_len = utf8_len(cleaned.as_slice());
        if cleaned_len > max_len {
            return None;
        }
        Some(string_of(cleaned.as_slice()))
    }

    /// The first step of refining `raw_text`: a blank transcript is returned as it
    /// is and the model is not run; any other transcript goes to the model as it is.
    pub fn clean(raw_text: String) -> (r: RefinementStep)
        ensures
            trim(raw_text@).len() == 0 ==> r == RefinementStep::Done(raw_text),
            trim(raw_text@).len() > 0 ==> r == RefinementStep::Infer(raw_text),
    {
        if Self::should_skip(raw_text.as_str()) {
            RefinementStep::Done(raw_text)
        } else {
            RefinementStep::Infer(raw_text)
        }
    }

    /// The refined transcript once the model run on `raw_text` ended with `outcome`:
    /// the accepted output, or `raw_text` when inference failed, panicked, or its
    /// output was rejected.
    pub fn after_inference(raw_text: String, outcome: InferenceOutcome) -> (r: String)
        ensures
            r@ == refined_text(raw_text@, outcome),
    {
        match outcome {
            InferenceOutcome::Generated(generated) => {
                match Self::finalize_output(raw_text.as_str(), generated.as_str()) {
                    Some(c) => c,
                    None => raw_text,
                }
            },
            InferenceOutcome::Failed(_) => raw_text,
            InferenceOutcome::Panicked => raw_text,
        }
    }
}

/// Refinement never loses the transcript: whatever the model did, the result is the
/// raw transcript or a generation that passed the output checks, and such a
/// generation is never empty nor longer than three times the raw transcript plus
/// 120 bytes.
pub proof fn law_refinement_falls_back_to_raw(raw: Seq<char>, outcome: InferenceOutcome)
    ensures
        !(outcome is Generated) ==> refined_text(raw, outcome) == raw,
        refined_text(raw, outcome) == raw || (outcome matches InferenceOutcome::Generated(g)
            && accepted_output(raw, g@) == Some(refined_text(raw, outcome))),
        outcome matches InferenceOutcome::Generated(g) ==> (accepted_output(raw, g@) matches Some(
            c,
        ) ==> c.len() > 0 && sat_byte_len(c) <= max_reasonable_len(sat_byte_len(raw))),
{
}

} // verus!
