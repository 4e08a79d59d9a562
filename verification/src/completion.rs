//! Code completion: the inline-completion prompt, the request's token
//! budget and the answer handed back.

use vstd::prelude::*;
use crate::text::{append_range, append_str, chars_of, trim, trimmed_string};

verus! {

/// A completion as the editor receives it.
pub struct CompletionResponse {
    pub content: String,
    pub model: String,
    pub tokens: u32,
    pub latency: u64,
}

/// The token budget of a completion when the request names none.
pub const DEFAULT_COMPLETION_TOKENS: u32 = 150;

/// How many characters before the cursor an inline completion shows.
pub const INLINE_CONTEXT_BEFORE: usize = 200;

/// How many characters after the cursor an inline completion shows.
pub const INLINE_CONTEXT_AFTER: usize = 100;

/// The last `n` characters of `s` (all of them where it has fewer).
pub open spec fn last_chars(s: Seq<char>, n: int) -> Seq<char> {
    if s.len() <= n {
        s
    } else {
        s.subrange(s.len() - n, s.len() as int)
    }
}

/// The first `n` characters of `s` (all of them where it has fewer).
pub open spec fn first_chars(s: Seq<char>, n: int) -> Seq<char> {
    if s.len() <= n {
        s
    } else {
        s.subrange(0, n)
    }
}

/// The prompt of an inline completion: the language, the code around the
/// cursor cut to its last 200 characters before and first 100 after, and
/// the instruction to answer with the completion alone.
pub open spec fn inline_prompt(before: Seq<char>, after: Seq<char>, language: Seq<char>) -> Seq<
    char,
> {
    "Complete the code:\n```"@ + language + "\n"@ + last_chars(
        before,
        INLINE_CONTEXT_BEFORE as int,
    ) + "[CURSOR]"@ + first_chars(after, INLINE_CONTEXT_AFTER as int)
        + "\n```\nReturn ONLY the completion text:"@
}

/// The prompt sent for an inline completion at the cursor.
pub fn inline_completion_prompt(context_before: &str, context_after: &str, language: &str) -> (r:
    String)
    ensures
        r@ == inline_prompt(context_before@, context_after@, language@),
{
    let before = chars_of(context_before);
    let after = chars_of(context_after);
    let start = if before.len() > INLINE_CONTEXT_BEFORE {
        before.len() - INLINE_CONTEXT_BEFORE
    } else {
        0
    };
    let end = if after.len() > INLINE_CONTEXT_AFTER {
        INLINE_CONTEXT_AFTER
    } else {
        after.len()
    };
    let mut r = String::new();
    append_str(&mut r, "Complete the code:\n```");
    append_str(&mut r, language);
    append_str(&mut r, "\n");
    append_range(&mut r, &before, start, before.len());
    append_str(&mut r, "[CURSOR]");
    append_range(&mut r, &after, 0, end);
    append_str(&mut r, "\n```\nReturn ONLY the completion text:");
    proof {
        assert(before@.subrange(start as int, before@.len() as int) =~= last_chars(
            context_before@,
            INLINE_CONTEXT_BEFORE as int,
        ));
        assert(after@.subrange(0, end as int) =~= first_chars(
            context_after@,
            INLINE_CONTEXT_AFTER as int,
        ));
    }
    r
}

/// The text of an inline completion: the model's answer, trimmed.
pub fn inline_completion_text(answer: &str) -> (r: String)
    ensures
        r@ == trim(answer@),
{
    let v = chars_of(answer);
    let r = trimmed_string(&v, 0, v.len());
    assert(v@.subrange(0, v@.len() as int) =~= answer@);
    r
}

/// The token budget of a completion: the one requested, else 150.
pub fn completion_max_tokens(requested: Option<u32>) -> (r: u32)
    ensures
        r == match requested {
            Some(n) => n,
            None => DEFAULT_COMPLETION_TOKENS,
        },
{
    match requested {
        Some(n) => n,
        None => DEFAULT_COMPLETION_TOKENS,
    }
}

/// The completion handed back for a model's answer: its text, the model
/// that gave it, the tokens it reported (0 where it reported none) and the
/// latency measured around the call.
pub fn completion_response(content: String, model: String, tokens: Option<u32>, latency: u64) -> (r:
    CompletionResponse)
    ensures
        r.content@ == content@,
        r.model@ == model@,
        r.tokens == match tokens {
            Some(n) => n,
            None => 0,
        },
        r.latency == latency,
{
    let tokens = match tokens {
        Some(n) => n,
        None => 0,
    };
    CompletionResponse { content, model, tokens, latency }
}

} // verus!
