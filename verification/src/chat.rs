//! Chat: routing preferences read from requests, and the cutting of a
//! reply into stream chunks.

use vstd::prelude::*;
use crate::completion::first_chars;

use crate::text::{
    append_str, ascii_lower, chars_of, concat, decimal, eq_ignore_ascii_case, eq_str, is_ws,
    is_ws_exec, join, lowercase, find, find_char, push_decimal, string_of, to_lowercase, trim, trimmed_string,
};

verus! {

broadcast use vstd::string::group_string_axioms;

/// A request to start a conversation.
#[derive(Debug)]
pub struct CreateConversationRequest {
    pub title: String,
}

/// A request to rename a conversation.
#[derive(Debug)]
pub struct UpdateConversationRequest {
    pub title: String,
}

/// Hints about a task that guide the choice of model.
#[derive(Debug)]
pub struct TaskMetadata {
    pub intents: Vec<String>,
    pub requires_vision: bool,
    pub token_estimate: Option<u32>,
    pub cost_priority: Option<String>,
}

/// A chat message sent by the user.
#[derive(Debug)]
pub struct ChatSendMessageRequest {
    pub conversation_id: Option<i64>,
    pub content: String,
    pub provider: Option<String>,
    pub model: Option<String>,
    pub provider_override: Option<String>,
    pub model_override: Option<String>,
    pub strategy: Option<String>,
    pub stream: Option<bool>,
    pub enable_tools: Option<bool>,
    pub conversation_mode: Option<String>,
    pub workflow_hash: Option<String>,
    pub task_metadata: Option<TaskMetadata>,
}

/// How much cost matters when a model is chosen.
#[derive(Debug, Clone, Copy, PartialEq, Eq, Structural)]
pub enum CostPriority {
    Low,
    Balanced,
}

/// How the router chooses among models.
#[derive(Debug, Clone, Copy, PartialEq, Eq, Structural)]
pub enum RoutingStrategy {
    Auto,
    CostOptimized,
    LatencyOptimized,
    LocalFirst,
}

/// What the router knows of a task.
#[derive(Debug)]
pub struct RouterContext {
    pub intents: Vec<String>,
    pub requires_vision: bool,
    pub token_estimate: u32,
    pub cost_priority: CostPriority,
}

/// The cost priority a request names: `Low` for `"low"` in any ASCII case,
/// `Balanced` otherwise.
pub open spec fn cost_priority_of(source: Option<Seq<char>>) -> CostPriority {
    match source {
        Some(v) => if eq_ignore_ascii_case(v, "low"@) {
            CostPriority::Low
        } else {
            CostPriority::Balanced
        },
        None => CostPriority::Balanced,
    }
}

/// `a` and `b` match ignoring ASCII case.
fn eq_ignore_ascii_case_exec(a: &Vec<char>, b: &Vec<char>) -> (r: bool)
    ensures
        r == eq_ignore_ascii_case(a@, b@),
{
    if a.len() != b.len() {
        return false;
    }
    let mut i: usize = 0;
    while i < a.len()
        invariant
            i <= a.len() == b.len(),
            forall|j: int| 0 <= j < i ==> ascii_lower(#[trigger] a@[j]) == ascii_lower(b@[j]),
        decreases a.len() - i,
    {
        if ascii_lower_exec(a[i]) != ascii_lower_exec(b[i]) {
            return false;
        }
        i += 1;
    }
    true
}

/// The ASCII lower case of `c`.
fn ascii_lower_exec(c: char) -> (r: char)
    ensures
        r == ascii_lower(c),
{
    if 'A' <= c && c <= 'Z' {
        ((c as u32 + 32) as u8) as char
    } else {
        c
    }
}

/// The cost priority a request names.
pub fn parse_cost_priority(source: Option<&str>) -> (r: CostPriority)
    ensures
        r == cost_priority_of(match source {
            Some(s) => Some(s@),
            None => None,
        }),
{
    match source {
        Some(value) => {
            let v = chars_of(value);
            let low = chars_of("low");
            if eq_ignore_ascii_case_exec(&v, &low) {
                CostPriority::Low
            } else {
                CostPriority::Balanced
            }
        },
        None => CostPriority::Balanced,
    }
}

/// The strategy a request names, lower-cased: cost, latency or local
/// first, else automatic.
pub open spec fn routing_strategy_of(input: Option<Seq<char>>) -> RoutingStrategy {
    match input {
        Some(v) => {
            let l = lowercase(v);
            if l == "cost"@ || l == "cost_optimized"@ {
                RoutingStrategy::CostOptimized
            } else if l == "latency"@ || l == "latency_optimized"@ {
                RoutingStrategy::LatencyOptimized
            } else if l == "local"@ || l == "local_first"@ {
                RoutingStrategy::LocalFirst
            } else {
                RoutingStrategy::Auto
            }
        },
        None => RoutingStrategy::Auto,
    }
}

/// The routing strategy a request names.
pub fn parse_routing_strategy(input: Option<&str>) -> (r: RoutingStrategy)
    ensures
        r == routing_strategy_of(match input {
            Some(s) => Some(s@),
            None => None,
        }),
{
    match input {
        Some(value) => {
            let l = chars_of(to_lowercase(value).as_str());
            if eq_str(&l, "cost") || eq_str(&l, "cost_optimized") {
                RoutingStrategy::CostOptimized
            } else if eq_str(&l, "latency") || eq_str(&l, "latency_optimized") {
                RoutingStrategy::LatencyOptimized
            } else if eq_str(&l, "local") || eq_str(&l, "local_first") {
                RoutingStrategy::LocalFirst
            } else {
                RoutingStrategy::Auto
            }
        },
        None => RoutingStrategy::Auto,
    }
}

/// A copy of a list of strings.
pub fn copy_strings(v: &Vec<String>) -> (r: Vec<String>)
    ensures
        r.deep_view() == v.deep_view(),
{
    let mut r: Vec<String> = Vec::new();
    let mut i: usize = 0;
    while i < v.len()
        invariant
            i <= v.len(),
            r.deep_view() =~= v.deep_view().take(i as int),
        decreases v.len() - i,
    {
        let s = v[i].clone();
        let ghost before = r.deep_view();
        r.push(s);
        assert(r.deep_view() =~= before.push(v@[i as int]@));
        i += 1;
    }
    assert(v.deep_view().take(v.len() as int) =~= v.deep_view());
    r
}

/// What the router is told of a task from its hints: the token estimate
/// defaults to zero.
pub fn router_context_from_metadata(metadata: &TaskMetadata) -> (r: RouterContext)
    ensures
        r.intents.deep_view() == metadata.intents.deep_view(),
        r.requires_vision == metadata.requires_vision,
        r.token_estimate == (match metadata.token_estimate {
            Some(t) => t,
            None => 0,
        }),
        r.cost_priority == cost_priority_of(metadata.cost_priority.deep_view()),
{
    let cost_priority = match &metadata.cost_priority {
        Some(s) => parse_cost_priority(Some(s.as_str())),
        None => parse_cost_priority(None),
    };
    RouterContext {
        intents: copy_strings(&metadata.intents),
        requires_vision: metadata.requires_vision,
        token_estimate: match metadata.token_estimate {
            Some(t) => t,
            None => 0,
        },
        cost_priority,
    }
}

// ---------------------------------------------------------------------------
// Stream chunks
// ---------------------------------------------------------------------------

/// The length of a chunk worth sending, in bytes.
pub const STREAM_CHUNK_TARGET: usize = 48;

/// The number of bytes of `c` in UTF-8 (`char::len_utf8`).
pub open spec fn utf8_width(c: char) -> nat {
    if (c as u32) < 0x80 {
        1
    } else if (c as u32) < 0x800 {
        2
    } else if (c as u32) < 0x10000 {
        3
    } else {
        4
    }
}

/// The number of bytes of `s` in UTF-8.
pub open spec fn utf8_len(s: Seq<char>) -> nat
    decreases s.len(),
{
    if s.len() == 0 {
        0
    } else {
        utf8_len(s.drop_last()) + utf8_width(s.last())
    }
}

/// The state of the chunking after the characters before `k`: the chunks
/// sent, where the pending chunk starts, and the position after the last
/// whitespace seen (or the chunk start).
pub struct ChunkState {
    pub chunks: Seq<Seq<char>>,
    pub start: int,
    pub last_break: int,
}

/// What character `k` of `s` does to the chunking: a new line closes the
/// chunk after itself; a whitespace is a place to break; and once the
/// pending chunk reaches 48 bytes it is sent up to the last place to break
/// (or whole, where there is none).
pub open spec fn chunk_step(s: Seq<char>, st: ChunkState, k: int) -> ChunkState {
    let next = k + 1;
    if s[k] == '\n' {
        ChunkState {
            chunks: st.chunks.push(
                if st.start < next {
                    s.subrange(st.start, next)
                } else {
                    seq!['\n']
                },
            ),
            start: next,
            last_break: next,
        }
    } else {
        let lb = if is_ws(s[k]) {
            next
        } else {
            st.last_break
        };
        if utf8_len(s.subrange(st.start, next)) >= 48 {
            let end = if lb > st.start {
                lb
            } else {
                next
            };
            if end > st.start {
                ChunkState { chunks: st.chunks.push(s.subrange(st.start, end)), start: end, last_break: end }
            } else {
                ChunkState { last_break: lb, ..st }
            }
        } else {
            ChunkState { last_break: lb, ..st }
        }
    }
}

/// The chunking after the first `k` characters of `s`.
pub open spec fn chunking(s: Seq<char>, k: int) -> ChunkState
    decreases k,
{
    if k <= 0 {
        ChunkState { chunks: Seq::empty(), start: 0, last_break: 0 }
    } else {
        chunk_step(s, chunking(s, k - 1), k - 1)
    }
}

/// The chunks of a reply to stream: the chunking, with the rest after it,
/// and the whole reply where that gives no chunk.
pub open spec fn stream_chunks(s: Seq<char>) -> Seq<Seq<char>> {
    let st = chunking(s, s.len() as int);
    let chunks = if st.start < s.len() {
        st.chunks.push(s.subrange(st.start, s.len() as int))
    } else {
        st.chunks
    };
    if chunks.len() == 0 {
        seq![s]
    } else {
        chunks
    }
}

/// The UTF-8 width of `c`.
fn utf8_width_exec(c: char) -> (r: u128)
    ensures
        r == utf8_width(c),
{
    let u = c as u32;
    if u < 0x80 {
        1
    } else if u < 0x800 {
        2
    } else if u < 0x10000 {
        3
    } else {
        4
    }
}

/// The UTF-8 length of a sequence grows by each character's width.
proof fn lemma_utf8_len_split(s: Seq<char>, a: int, b: int)
    requires
        0 <= a <= b < s.len(),
    ensures
        utf8_len(s.subrange(a, b + 1)) == utf8_len(s.subrange(a, b)) + utf8_width(s[b]),
{
    assert(s.subrange(a, b + 1).drop_last() =~= s.subrange(a, b));
}

/// Cuts a reply into chunks of about 48 bytes for streaming, breaking after
/// new lines and, where possible, after whitespace. The chunks put back
/// together give the reply.
pub fn split_stream_chunks(content: &str) -> (r: Vec<String>)
    ensures
        r.deep_view() == stream_chunks(content@),
        concat(r.deep_view()) == content@,
{
    let v = chars_of(content);
    let ghost s = v@;
    let mut chunks: Vec<String> = Vec::new();
    let mut start: usize = 0;
    let mut last_break: usize = 0;
    let mut pending: u128 = 0;
    let mut k: usize = 0;
    while k < v.len()
        invariant
            s == v@,
            k <= v.len(),
            start <= last_break <= k,
            pending == utf8_len(s.subrange(start as int, k as int)),
            pending <= 4 * k,
            ({
                let st = chunking(s, k as int);
                &&& chunks.deep_view() == st.chunks
                &&& start == st.start
                &&& last_break == st.last_break
            }),
            concat(chunks.deep_view()) + s.subrange(start as int, k as int) == s.subrange(0, k as int),
        decreases v.len() - k,
    {
        let c = v[k];
        let next = k + 1;
        let ghost before = chunks.deep_view();
        proof {
            assert(s.subrange(0, next as int) =~= s.subrange(0, k as int).push(c));
            assert(s.subrange(start as int, next as int) =~= s.subrange(start as int, k as int).push(c));
            lemma_utf8_len_split(s, start as int, k as int);
        }
        if c == '\n' {
            let piece = string_of(&v, start, next);
            chunks.push(piece);
            assert(chunks.deep_view() =~= before.push(s.subrange(start as int, next as int)));
            proof {
                crate::text::lemma_concat_push(before, s.subrange(start as int, next as int));
                assert(concat(chunks.deep_view()) =~= concat(before) + s.subrange(start as int, next as int));
                assert(s.subrange(next as int, next as int) =~= Seq::<char>::empty());
                assert(concat(before) + s.subrange(start as int, next as int) =~= s.subrange(0, next as int));
            }
            start = next;
            last_break = next;
            pending = 0;
        } else {
            if is_ws_exec(c) {
                last_break = next;
            }
            pending = pending + utf8_width_exec(c);
            if pending >= 48 {
                let end = if last_break > start { last_break } else { next };
                if end > start {
                    let piece = string_of(&v, start, end);
                    chunks.push(piece);
                    assert(chunks.deep_view() =~= before.push(s.subrange(start as int, end as int)));
                    proof {
                        crate::text::lemma_concat_push(before, s.subrange(start as int, end as int));
                        assert(s.subrange(start as int, next as int) =~= s.subrange(start as int, end as int)
                            + s.subrange(end as int, next as int));
                        assert(concat(chunks.deep_view()) + s.subrange(end as int, next as int) =~= s.subrange(0, next as int));
                        lemma_utf8_len_le(s.subrange(end as int, next as int));
                    }
                    start = end;
                    last_break = end;
                    pending = utf8_len_range(&v, end, next, Ghost(s));
                }
            }
        }
        k = next;
    }
    assert(s.subrange(0, s.len() as int) =~= s);
    if start < v.len() {
        let ghost before = chunks.deep_view();
        let piece = string_of(&v, start, v.len());
        chunks.push(piece);
        assert(chunks.deep_view() =~= before.push(s.subrange(start as int, s.len() as int)));
        proof {
            crate::text::lemma_concat_push(before, s.subrange(start as int, s.len() as int));
        }
    } else {
        assert(s.subrange(start as int, s.len() as int) =~= Seq::<char>::empty());
        assert(concat(chunks.deep_view()) + Seq::<char>::empty() =~= concat(chunks.deep_view()));
    }
    if chunks.len() == 0 {
        assert(concat(chunks.deep_view()) =~= Seq::<char>::empty());
        chunks.push(content.to_owned());
        assert(chunks.deep_view() =~= seq![s]);
        proof {
            crate::text::lemma_concat_push(Seq::<Seq<char>>::empty(), s);
            assert(Seq::<Seq<char>>::empty().push(s) =~= seq![s]);
            assert(concat(Seq::<Seq<char>>::empty()) + s =~= s);
        }
    }
    chunks
}

/// The UTF-8 length of a sequence is at most four bytes a character.
proof fn lemma_utf8_len_le(s: Seq<char>)
    ensures
        utf8_len(s) <= 4 * s.len(),
    decreases s.len(),
{
    if s.len() > 0 {
        lemma_utf8_len_le(s.drop_last());
    }
}

/// The UTF-8 length of `v[from..to]`.
fn utf8_len_range(v: &Vec<char>, from: usize, to: usize, s: Ghost<Seq<char>>) -> (r: u128)
    requires
        s@ == v@,
        from <= to <= v.len(),
    ensures
        r == utf8_len(s@.subrange(from as int, to as int)),
        r <= 4 * (to - from),
{
    let mut r: u128 = 0;
    let mut i = from;
    assert(s@.subrange(from as int, from as int) =~= Seq::<char>::empty());
    while i < to
        invariant
            from <= i <= to <= v.len(),
            s@ == v@,
            r == utf8_len(s@.subrange(from as int, i as int)),
            r <= 4 * (i - from),
        decreases to - i,
    {
        proof {
            lemma_utf8_len_split(s@, from as int, i as int);
        }
        r = r + utf8_width_exec(v[i]);
        i += 1;
    }
    r
}

/// The text of a message as it is sent: without surrounding whitespace;
/// an error where nothing else is left.
pub fn message_text(content: &str) -> (r: Result<String, String>)
    ensures
        trim(content@).len() == 0 ==> (r matches Err(e) && e@ == "Message cannot be empty"@),
        trim(content@).len() > 0 ==> (r matches Ok(t) && t@ == trim(content@)),
{
    let v = chars_of(content);
    let t = trimmed_string(&v, 0, v.len());
    assert(v@.subrange(0, v@.len() as int) =~= v@);
    if t.as_str().is_empty() {
        Err("Message cannot be empty".to_owned())
    } else {
        Ok(t)
    }
}

/// `parts` joined with `sep` between them.
pub fn join_strings(parts: &Vec<String>, sep: &str) -> (r: String)
    ensures
        r@ == join(parts.deep_view(), sep@),
{
    let mut out = String::new();
    let mut i: usize = 0;
    while i < parts.len()
        invariant
            i <= parts.len(),
            out@ == join(parts.deep_view().take(i as int), sep@),
        decreases parts.len() - i,
    {
        let ghost pre = parts.deep_view().take(i as int);
        let ghost next = parts.deep_view().take(i + 1);
        assert(next.drop_last() =~= pre);
        assert(next.last() == parts@[i as int]@);
        if i > 0 {
            append_str(&mut out, sep);
        }
        append_str(&mut out, parts[i].as_str());
        i += 1;
    }
    assert(parts.deep_view().take(parts.len() as int) =~= parts.deep_view());
    out
}

/// The refusal of a message that looks like a prompt injection, naming
/// the patterns found.
pub fn blocked_message(patterns: &Vec<String>) -> (r: String)
    ensures
        r@ == "Message blocked due to security concerns. Detected patterns: "@ + join(
            patterns.deep_view(),
            ", "@,
        ),
{
    let mut r = "Message blocked due to security concerns. Detected patterns: ".to_owned();
    let joined = join_strings(patterns, ", ");
    append_str(&mut r, joined.as_str());
    r
}

// ---------------------------------------------------------------------------
// Checking conversations and messages
// ---------------------------------------------------------------------------

/// The decimal digits of `n`, with a minus sign where it is negative
/// (`i64::to_string`).
pub open spec fn signed_decimal(n: int) -> Seq<char> {
    if n < 0 {
        "-"@ + decimal((-n) as nat)
    } else {
        decimal(n as nat)
    }
}

/// Appends the decimal digits of `n`, with its sign.
fn push_signed(out: &mut String, n: i64)
    ensures
        final(out)@ == old(out)@ + signed_decimal(n as int),
{
    if n < 0 {
        append_str(out, "-");
        let magnitude: u64 = (0i128 - n as i128) as u64;
        push_decimal(out, magnitude);
    } else {
        push_decimal(out, n as u64);
    }
}

/// The refusal of an id that is not positive.
fn id_error(prefix: &str, id: i64) -> (r: String)
    ensures
        r@ == prefix@ + signed_decimal(id as int) + ". ID must be positive"@,
{
    let mut e = prefix.to_owned();
    push_signed(&mut e, id);
    append_str(&mut e, ". ID must be positive");
    e
}

/// A conversation id must be positive.
pub fn check_conversation_id(id: i64) -> (r: Result<(), String>)
    ensures
        r is Ok <==> id > 0,
        r matches Err(e) ==> e@ == "Invalid conversation ID: "@ + signed_decimal(id as int)
            + ". ID must be positive"@,
{
    if id <= 0 {
        Err(id_error("Invalid conversation ID: ", id))
    } else {
        Ok(())
    }
}

/// A message id must be positive.
pub fn check_message_id(id: i64) -> (r: Result<(), String>)
    ensures
        r is Ok <==> id > 0,
        r matches Err(e) ==> e@ == "Invalid message ID: "@ + signed_decimal(id as int)
            + ". ID must be positive"@,
{
    if id <= 0 {
        Err(id_error("Invalid message ID: ", id))
    } else {
        Ok(())
    }
}

/// A text as stored: without surrounding whitespace, not empty, and no
/// longer than `max` bytes in UTF-8; otherwise the matching error.
pub open spec fn checked_text(
    text: Seq<char>,
    max: nat,
    empty_error: Seq<char>,
    long_error: Seq<char>,
) -> Result<Seq<char>, Seq<char>> {
    let t = trim(text);
    if t.len() == 0 {
        Err(empty_error)
    } else if utf8_len(t) > max {
        Err(long_error)
    } else {
        Ok(t)
    }
}

/// Trims a text and checks it against a byte limit.
fn check_text(text: &str, max: u128, empty_error: &str, long_error: &str) -> (r: Result<String, String>)
    ensures
        match checked_text(text@, max as nat, empty_error@, long_error@) {
            Ok(t) => r matches Ok(s) && s@ == t,
            Err(e) => r matches Err(f) && f@ == e,
        },
{
    let v = chars_of(text);
    let (a, b) = crate::text::trim_bounds(&v, 0, v.len());
    assert(v@.subrange(0, v@.len() as int) =~= v@);
    if a == b {
        return Err(empty_error.to_owned());
    }
    let n = utf8_len_range(&v, a, b, Ghost(v@));
    if n > max {
        return Err(long_error.to_owned());
    }
    Ok(string_of(&v, a, b))
}

/// A conversation title as stored: trimmed, not empty, at most 500 bytes.
pub fn conversation_title(title: &str) -> (r: Result<String, String>)
    ensures
        match checked_text(
            title@,
            500,
            "Conversation title cannot be empty"@,
            "Conversation title cannot exceed 500 characters"@,
        ) {
            Ok(t) => r matches Ok(s) && s@ == t,
            Err(e) => r matches Err(f) && f@ == e,
        },
{
    check_text(title, 500, "Conversation title cannot be empty", "Conversation title cannot exceed 500 characters")
}

/// A message's content as stored: trimmed, not empty, at most 1,000,000
/// bytes.
pub fn message_content(content: &str) -> (r: Result<String, String>)
    ensures
        match checked_text(
            content@,
            1_000_000,
            "Message content cannot be empty"@,
            "Message content cannot exceed 1,000,000 characters"@,
        ) {
            Ok(t) => r matches Ok(s) && s@ == t,
            Err(e) => r matches Err(f) && f@ == e,
        },
{
    check_text(
        content,
        1_000_000,
        "Message content cannot be empty",
        "Message content cannot exceed 1,000,000 characters",
    )
}

/// A message's token count, where given, must not be negative.
pub fn check_tokens(tokens: Option<i32>) -> (r: Result<(), String>)
    ensures
        r is Ok <==> (match tokens {
            Some(t) => t >= 0,
            None => true,
        }),
        r matches Err(e) ==> (tokens matches Some(t) && e@ == "Invalid tokens value: "@
            + signed_decimal(t as int) + ". Tokens must be non-negative"@),
{
    match tokens {
        Some(t) => {
            if t < 0 {
                let mut e = "Invalid tokens value: ".to_owned();
                push_signed(&mut e, t as i64);
                append_str(&mut e, ". Tokens must be non-negative");
                Err(e)
            } else {
                Ok(())
            }
        },
        None => Ok(()),
    }
}

/// Who wrote a message.
#[derive(Debug, Clone, Copy, PartialEq, Eq, Structural)]
pub enum MessageRole {
    User,
    Assistant,
    System,
}

/// The role a message's role name stands for: exactly `user`,
/// `assistant` or `system`.
pub fn parse_message_role(role: &str) -> (r: Result<MessageRole, String>)
    ensures
        role@ == "user"@ ==> r == Ok::<MessageRole, String>(MessageRole::User),
        role@ == "assistant"@ ==> r == Ok::<MessageRole, String>(MessageRole::Assistant),
        role@ == "system"@ ==> r == Ok::<MessageRole, String>(MessageRole::System),
        role@ != "user"@ && role@ != "assistant"@ && role@ != "system"@ ==> (r matches Err(e) && e@
            == "Invalid role: '"@ + role@ + "'. Must be 'user', 'assistant', or 'system'"@),
{
    proof {
        reveal_strlit("user");
        reveal_strlit("assistant");
        reveal_strlit("system");
        assert("user"@.len() != "assistant"@.len() && "user"@.len() != "system"@.len()
            && "assistant"@.len() != "system"@.len());
    }
    let v = chars_of(role);
    if eq_str(&v, "user") {
        Ok(MessageRole::User)
    } else if eq_str(&v, "assistant") {
        Ok(MessageRole::Assistant)
    } else if eq_str(&v, "system") {
        Ok(MessageRole::System)
    } else {
        let mut e = "Invalid role: '".to_owned();
        append_str(&mut e, role);
        append_str(&mut e, "'. Must be 'user', 'assistant', or 'system'");
        Err(e)
    }
}


// ---------------------------------------------------------------------------
// A new message and its conversation
// ---------------------------------------------------------------------------

/// The refusal of a role name.
pub open spec fn role_named(role: Seq<char>) -> Result<MessageRole, Seq<char>> {
    if role == "user"@ {
        Ok(MessageRole::User)
    } else if role == "assistant"@ {
        Ok(MessageRole::Assistant)
    } else if role == "system"@ {
        Ok(MessageRole::System)
    } else {
        Err("Invalid role: '"@ + role + "'. Must be 'user', 'assistant', or 'system'"@)
    }
}

/// What a new message's request comes to, its checks taken in order: the
/// conversation id, the content (trimmed, not empty, at most 1,000,000
/// bytes), the token count, the cost (whose refusal the caller found, where
/// it is negative), and the role. Without a refusal, the content as stored
/// and the role.
pub open spec fn message_request_outcome(
    conversation_id: i64,
    content: Seq<char>,
    tokens: Option<i32>,
    cost_error: Option<Seq<char>>,
    role: Seq<char>,
) -> Result<(Seq<char>, MessageRole), Seq<char>> {
    if conversation_id <= 0 {
        Err("Invalid conversation ID: "@ + signed_decimal(conversation_id as int)
            + ". ID must be positive"@)
    } else {
        match checked_text(
            content,
            1_000_000,
            "Message content cannot be empty"@,
            "Message content cannot exceed 1,000,000 characters"@,
        ) {
            Err(e) => Err(e),
            Ok(t) => match tokens {
                Some(n) if n < 0 => Err("Invalid tokens value: "@ + signed_decimal(n as int)
                    + ". Tokens must be non-negative"@),
                _ => match cost_error {
                    Some(e) => Err(e),
                    None => match role_named(role) {
                        Ok(r) => Ok((t, r)),
                        Err(e) => Err(e),
                    },
                },
            },
        }
    }
}

/// Runs the checks of a new message's request in order, with the cost's
/// refusal found by the caller.
pub fn check_message_request(
    conversation_id: i64,
    content: &str,
    tokens: Option<i32>,
    cost_error: Option<String>,
    role: &str,
) -> (r: Result<(String, MessageRole), String>)
    ensures
        match message_request_outcome(conversation_id, content@, tokens, cost_error.deep_view(), role@) {
            Ok(v) => r matches Ok(w) && w.0@ == v.0 && w.1 == v.1,
            Err(e) => r matches Err(f) && f@ == e,
        },
{
    proof {
        reveal_strlit("user");
        reveal_strlit("assistant");
        reveal_strlit("system");
        assert("user"@.len() != "assistant"@.len() && "user"@.len() != "system"@.len()
            && "assistant"@.len() != "system"@.len());
    }
    check_conversation_id(conversation_id)?;
    let stored = message_content(content)?;
    check_tokens(tokens)?;
    if let Some(e) = cost_error {
        return Err(e);
    }
    let role = parse_message_role(role)?;
    Ok((stored, role))
}

/// The title a conversation has until its first message names it.
pub open spec fn untitled() -> Seq<char> {
    "New Conversation"@
}

/// The first line of `s`: up to its first `'\n'`.
pub open spec fn first_line(s: Seq<char>) -> Seq<char> {
    match find(s, seq!['\n']) {
        Some(k) => s.subrange(0, k),
        None => s,
    }
}

/// The title taken from a message: its first line, cut to 50 characters,
/// then trimmed. It replaces the title only while that is still
/// `"New Conversation"`, and only where it is not empty and differs from
/// it.
pub open spec fn auto_title_of(current: Seq<char>, content: Seq<char>) -> Option<Seq<char>> {
    let t = trim(first_chars(first_line(content), 50));
    if current == untitled() && t.len() > 0 && t != current {
        Some(t)
    } else {
        None
    }
}

/// The new title of a conversation after a message, where it gets one.
pub fn auto_title(current_title: &str, content: &str) -> (r: Option<String>)
    ensures
        r.deep_view() == auto_title_of(current_title@, content@),
{
    let cur = chars_of(current_title);
    if !eq_str(&cur, "New Conversation") {
        return None;
    }
    let v = chars_of(content);
    let end = match find_char(&v, '\n') {
        Some(k) => k,
        None => v.len(),
    };
    let cut = if end > 50 {
        50
    } else {
        end
    };
    let (a, b) = crate::text::trim_bounds(&v, 0, cut);
    proof {
        assert(v@.subrange(0, end as int) =~= first_line(content@));
        assert(v@.subrange(0, cut as int) =~= first_chars(first_line(content@), 50));
    }
    if a == b {
        return None;
    }
    let t = string_of(&v, a, b);
    if eq_str(&cur, t.as_str()) {
        return None;
    }
    Some(t)
}

/// The query of cost analytics: a window of days and the provider and
/// model filters.
#[derive(Debug)]
pub struct CostQuery {
    pub window_days: i64,
    pub provider: Option<String>,
    pub model: Option<String>,
}

/// A filter as applied: trimmed, and none where it is empty.
pub open spec fn clean_filter(f: Option<Seq<char>>) -> Option<Seq<char>> {
    match f {
        Some(s) => if trim(s).len() > 0 {
            Some(trim(s))
        } else {
            None
        },
        None => None,
    }
}

/// Trims a filter, dropping an empty one.
fn clean(f: Option<&str>) -> (r: Option<String>)
    ensures
        r.deep_view() == clean_filter(match f {
            Some(s) => Some(s@),
            None => None,
        }),
{
    match f {
        Some(s) => {
            let v = chars_of(s);
            let (a, b) = crate::text::trim_bounds(&v, 0, v.len());
            assert(v@.subrange(0, v@.len() as int) =~= s@);
            if a == b {
                None
            } else {
                Some(string_of(&v, a, b))
            }
        },
        None => None,
    }
}

/// The window and filters of cost analytics, or the refusal of the days.
pub open spec fn cost_query_of(
    days: Option<i64>,
    provider: Option<Seq<char>>,
    model: Option<Seq<char>>,
) -> Result<(i64, Option<Seq<char>>, Option<Seq<char>>), Seq<char>> {
    match days {
        Some(d) => if d <= 0 {
            Err("Invalid days value: "@ + signed_decimal(d as int) + ". Days must be positive"@)
        } else if d > 3650 {
            Err("Invalid days value: "@ + signed_decimal(d as int)
                + ". Days cannot exceed 3650 (10 years)"@)
        } else {
            Ok((d, clean_filter(provider), clean_filter(model)))
        },
        None => Ok((30, clean_filter(provider), clean_filter(model))),
    }
}

/// The query of cost analytics: the days asked for must be positive and
/// at most 3650; the window is those days, 30 where none are asked for;
/// the filters are trimmed, and empty ones dropped.
pub fn cost_query(days: Option<i64>, provider: Option<&str>, model: Option<&str>) -> (r: Result<
    CostQuery,
    String,
>)
    ensures
        match cost_query_of(
            days,
            match provider {
                Some(s) => Some(s@),
                None => None,
            },
            match model {
                Some(s) => Some(s@),
                None => None,
            },
        ) {
            Ok(q) => r matches Ok(c) && c.window_days == q.0 && c.provider.deep_view() == q.1
                && c.model.deep_view() == q.2,
            Err(e) => r matches Err(f) && f@ == e,
        },
{
    let window = match days {
        Some(d) => {
            if d <= 0 {
                let mut e = String::new();
                append_str(&mut e, "Invalid days value: ");
                push_signed(&mut e, d);
                append_str(&mut e, ". Days must be positive");
                return Err(e);
            }
            if d > 3650 {
                let mut e = String::new();
                append_str(&mut e, "Invalid days value: ");
                push_signed(&mut e, d);
                append_str(&mut e, ". Days cannot exceed 3650 (10 years)");
                return Err(e);
            }
            d
        },
        None => 30,
    };
    Ok(CostQuery { window_days: window, provider: clean(provider), model: clean(model) })
}

} // verus!
