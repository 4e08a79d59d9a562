//! CSS generation: the prompt sent to the model and the reading of its
//! answer, and static accessibility hints for generated CSS.

use vstd::prelude::*;

use crate::text::{
    append_str, chars_of, contains, contains_str, find, find_str, find_str_in_tail, join, lemma_find_from,
    lemma_contains_at, lemma_contains_within, lemma_find_first, lemma_join_holds_part,
    lemma_rfind_last, occurs_at,
    lemma_rfind_upto, rfind, rfind_vec, string_of, tail, trim, trimmed_string,
};

verus! {

broadcast use vstd::string::group_string_axioms;

/// What the user asks to be designed.
#[derive(Debug)]
pub struct DesignRequest {
    pub description: String,
    pub selector: Option<String>,
    pub context: Option<DesignContext>,
    pub constraints: Option<DesignConstraints>,
}

/// Context for better CSS generation.
#[derive(Debug)]
pub struct DesignContext {
    pub current_styles: Option<String>,
    pub element_type: Option<String>,
    pub parent_styles: Option<String>,
    pub viewport_width: Option<u32>,
    pub viewport_height: Option<u32>,
}

/// Design constraints.
#[derive(Debug, Clone)]
pub struct DesignConstraints {
    pub color_scheme: Option<String>,
    pub max_width: Option<u32>,
    pub responsive: bool,
    pub accessibility: bool,
}

impl Default for DesignConstraints {
    fn default() -> (r: Self)
        ensures
            r.color_scheme is None,
            r.max_width is None,
            r.responsive,
            r.accessibility,
    {
        DesignConstraints { color_scheme: None, max_width: None, responsive: true, accessibility: true }
    }
}

/// Generated CSS.
#[derive(Debug)]
pub struct DesignResponse {
    pub css: String,
    pub explanation: String,
    pub preview_html: Option<String>,
    pub accessibility_notes: Option<String>,
}

/// A suggested design improvement.
#[derive(Debug)]
pub struct DesignSuggestion {
    pub title: String,
    pub description: String,
    pub css: String,
    pub impact: String,
}

/// One accessibility problem.
#[derive(Debug)]
pub struct AccessibilityIssue {
    pub severity: String,
    pub description: String,
    pub suggestion: String,
    pub wcag_criterion: String,
}

/// An accessibility review of some CSS.
#[derive(Debug)]
pub struct AccessibilityReport {
    pub score: u8,
    pub level: String,
    pub issues: Vec<AccessibilityIssue>,
    pub passed_checks: Vec<String>,
    pub summary: String,
}

// ---------------------------------------------------------------------------
// The prompt
// ---------------------------------------------------------------------------

/// `prefix + value + "\n"` where `value` is present, else nothing.
pub open spec fn labelled(prefix: Seq<char>, value: Option<Seq<char>>) -> Seq<char> {
    match value {
        Some(v) => prefix + v + "\n"@,
        None => Seq::empty(),
    }
}

/// The context part of the prompt.
pub open spec fn context_part(current: Option<Seq<char>>, element: Option<Seq<char>>) -> Seq<char> {
    "Context:\n"@ + labelled("Current styles: "@, current) + labelled("Element type: "@, element)
}

/// The requirements part of the prompt, for the constraints given (or the
/// default ones: responsive, accessible, no colour scheme).
pub open spec fn requirements_part(
    responsive: bool,
    accessibility: bool,
    scheme: Option<Seq<char>>,
) -> Seq<char> {
    "\nRequirements:\n"@ + (if responsive {
        "- Must be responsive (use relative units, media queries)\n"@
    } else {
        Seq::empty()
    }) + (if accessibility {
        "- Must meet WCAG AA standards (contrast, focus states)\n"@
    } else {
        Seq::empty()
    }) + labelled("- Color scheme: "@, scheme)
}

/// The fixed close of the prompt.
pub open spec fn prompt_close() -> Seq<char> {
    "\nReturn:\n"@ + "1. CSS code (clean, well-commented)\n"@
        + "2. Brief explanation of design choices\n"@
        + "\nFormat:\n```css\n[CSS CODE]\n```\n\n[EXPLANATION]"@
}

/// The prompt that asks the model for CSS.
pub open spec fn css_prompt(r: &DesignRequest) -> Seq<char> {
    let (responsive, accessibility, scheme) = match &r.constraints {
        Some(c) => (c.responsive, c.accessibility, c.color_scheme.deep_view()),
        None => (true, true, None),
    };
    "You are an expert CSS developer. Generate CSS code based on this description.\n\n"@
        + "Description: "@ + r.description@ + "\n\n"@
        + labelled("Target selector: "@, r.selector.deep_view())
        + (match &r.context {
        Some(c) => context_part(c.current_styles.deep_view(), c.element_type.deep_view()),
        None => Seq::empty(),
    }) + requirements_part(responsive, accessibility, scheme) + prompt_close()
}

/// Appends `prefix`, `value` and a new line where `value` is present.
fn push_labelled(out: &mut String, prefix: &str, value: &Option<String>)
    ensures
        final(out)@ == old(out)@ + labelled(prefix@, value.deep_view()),
{
    if let Some(v) = value {
        append_str(out, prefix);
        append_str(out, v.as_str());
        append_str(out, "\n");
    } else {
        assert(old(out)@ + Seq::<char>::empty() =~= old(out)@);
    }
}

/// Builds the prompt that asks the model for CSS.
pub fn build_css_generation_prompt(request: &DesignRequest) -> (r: Result<String, String>)
    ensures
        r matches Ok(p) && p@ == css_prompt(request),
{
    let mut prompt = String::new();
    append_str(
        &mut prompt,
        "You are an expert CSS developer. Generate CSS code based on this description.\n\n",
    );
    append_str(&mut prompt, "Description: ");
    append_str(&mut prompt, request.description.as_str());
    append_str(&mut prompt, "\n\n");
    push_labelled(&mut prompt, "Target selector: ", &request.selector);
    let ghost before_context = prompt@;
    if let Some(context) = &request.context {
        append_str(&mut prompt, "Context:\n");
        push_labelled(&mut prompt, "Current styles: ", &context.current_styles);
        push_labelled(&mut prompt, "Element type: ", &context.element_type);
    }
    let ghost after_context = prompt@;
    let defaults = DesignConstraints::default();
    let constraints = match &request.constraints {
        Some(c) => c,
        None => &defaults,
    };
    let ghost before_req = prompt@;
    append_str(&mut prompt, "\nRequirements:\n");
    if constraints.responsive {
        append_str(&mut prompt, "- Must be responsive (use relative units, media queries)\n");
    }
    let ghost mid1 = prompt@;
    if constraints.accessibility {
        append_str(&mut prompt, "- Must meet WCAG AA standards (contrast, focus states)\n");
    }
    let ghost mid2 = prompt@;
    push_labelled(&mut prompt, "- Color scheme: ", &constraints.color_scheme);
    let ghost after_req = prompt@;
    append_str(&mut prompt, "\nReturn:\n");
    append_str(&mut prompt, "1. CSS code (clean, well-commented)\n");
    append_str(&mut prompt, "2. Brief explanation of design choices\n");
    append_str(&mut prompt, "\nFormat:\n```css\n[CSS CODE]\n```\n\n[EXPLANATION]");
    proof {
        let (responsive, accessibility, scheme) = match &request.constraints {
            Some(c) => (c.responsive, c.accessibility, c.color_scheme.deep_view()),
            None => (true, true, None),
        };
        assert(constraints.responsive == responsive);
        assert(constraints.accessibility == accessibility);
        assert(constraints.color_scheme.deep_view() == scheme);
        let ctx = match &request.context {
            Some(c) => context_part(c.current_styles.deep_view(), c.element_type.deep_view()),
            None => Seq::empty(),
        };
        assert(after_context =~= before_context + ctx);
        assert(after_req =~= before_req + requirements_part(responsive, accessibility, scheme));
        assert(prompt@ =~= css_prompt(request));
    }
    Ok(prompt)
}

// ---------------------------------------------------------------------------
// Reading the answer
// ---------------------------------------------------------------------------

/// Where the code of the first fenced block starts, for a block opened by
/// the plain fence at `start`: after the end of the fence's line, or right
/// after the fence where the line does not end.
pub open spec fn code_start(r: Seq<char>, start: int) -> int {
    match find(tail(r, start), seq!['\n']) {
        Some(n) => start + n + 1,
        None => start + 3,
    }
}

/// The CSS and the explanation in a model's answer, or the message of the
/// error that the answer gets.
pub open spec fn css_answer(r: Seq<char>) -> Result<(Seq<char>, Seq<char>), Seq<char>> {
    let css: Result<Seq<char>, Seq<char>> = match find(r, "```css"@) {
        Some(start) => match find(tail(r, start + 6), "```"@) {
            Some(end) => Ok(trim(r.subrange(start + 6, start + 6 + end))),
            None => Err("Malformed CSS code block"@),
        },
        None => match find(r, "```"@) {
            Some(start) => {
                let cs = code_start(r, start);
                match find(tail(r, cs), "```"@) {
                    Some(end) => Ok(trim(r.subrange(cs, cs + end))),
                    None => Err("Malformed code block"@),
                }
            },
            None => Err("No CSS code found in response"@),
        },
    };
    match css {
        Err(e) => Err(e),
        Ok(c) => Ok(
            (
                c,
                match rfind(r, "```"@) {
                    Some(e) => trim(tail(r, e + 3)),
                    None => "No explanation provided"@,
                },
            ),
        ),
    }
}

/// No character of `s` is a backtick.
pub open spec fn backtick_free(s: Seq<char>) -> bool {
    forall|i: int| 0 <= i < s.len() ==> s[i] != '`'
}

/// An answer that is one block marked `css` and then an explanation gives
/// that block's body, trimmed, as the CSS and the explanation, trimmed, as
/// the explanation (body and explanation without backticks).
pub proof fn law_css_answer_block(body: Seq<char>, explanation: Seq<char>)
    requires
        backtick_free(body),
        backtick_free(explanation),
    ensures
        css_answer("```css"@ + body + "```"@ + explanation) == Ok::<(Seq<char>, Seq<char>), Seq<char>>(
            (trim(body), trim(explanation)),
        ),
{
    reveal_strlit("```css");
    reveal_strlit("```");
    let o = "```css"@;
    let f = "```"@;
    let r = o + body + f + explanation;
    let q: int = (6 + body.len()) as int;
    assert(find(r, o) == Some(0int)) by {
        assert(r.subrange(0, 6) =~= o);
        lemma_find_first(r, o, 0);
    }
    assert(find(tail(r, 6), f) == Some(body.len() as int)) by {
        let t = tail(r, 6);
        assert(t =~= body + f + explanation);
        assert(t.subrange(body.len() as int, body.len() + 3int) =~= f);
        assert forall|j: int| 0 <= j < body.len() implies !occurs_at(t, f, j) by {
            if occurs_at(t, f, j) {
                assert(t.subrange(j, j + 3)[0] == t[j]);
                assert(t[j] == body[j]);
            }
        }
        lemma_find_first(t, f, body.len() as int);
    }
    assert(r.subrange(6, q) =~= body);
    assert(rfind(r, f) == Some(q)) by {
        assert(r.subrange(q, q + 3) =~= f);
        assert forall|j: int| q < j implies !occurs_at(r, f, j) by {
            if occurs_at(r, f, j) {
                assert(r.subrange(j, j + 3)[2] == r[j + 2]);
                assert(r[j + 2] == explanation[j + 2 - q - 3]);
            }
        }
        lemma_rfind_last(r, f, q);
    }
    assert(tail(r, q + 3) =~= explanation);
}

/// An answer that is one block marked `json` gives that block's body,
/// trimmed, as its JSON (a body without backticks).
pub proof fn law_json_answer_block(before: Seq<char>, body: Seq<char>, after: Seq<char>)
    requires
        backtick_free(before),
        backtick_free(body),
    ensures
        json_answer(before + "```json"@ + body + "```"@ + after) == Some(trim(body)),
{
    reveal_strlit("```json");
    reveal_strlit("```");
    let o = "```json"@;
    let f = "```"@;
    let r = before + o + body + f + after;
    let s0: int = before.len() as int;
    assert(find(r, o) == Some(s0)) by {
        assert(r.subrange(s0, s0 + 7) =~= o);
        assert forall|j: int| 0 <= j < s0 implies !occurs_at(r, o, j) by {
            if occurs_at(r, o, j) {
                assert(r.subrange(j, j + 7)[0] == r[j]);
                assert(r[j] == before[j]);
            }
        }
        lemma_find_first(r, o, s0);
    }
    assert(find(tail(r, s0 + 7), f) == Some(body.len() as int)) by {
        let t = tail(r, s0 + 7);
        assert(t =~= body + f + after);
        assert(t.subrange(body.len() as int, body.len() + 3int) =~= f);
        assert forall|j: int| 0 <= j < body.len() implies !occurs_at(t, f, j) by {
            if occurs_at(t, f, j) {
                assert(t.subrange(j, j + 3)[0] == t[j]);
                assert(t[j] == body[j]);
            }
        }
        lemma_find_first(t, f, body.len() as int);
    }
    assert(r.subrange(s0 + 7, s0 + 7 + body.len()) =~= body);
}

/// Reads the CSS (the first fenced block, preferably one marked `css`) and
/// the explanation (what follows the last fence) out of a model's answer.
pub fn parse_css_response(response: &str) -> (r: Result<(String, String), String>)
    ensures
        css_answer(response@) matches Ok((c, e)) ==> (r matches Ok((c2, e2)) && c2@ == c && e2@
            == e),
        css_answer(response@) matches Err(m) ==> (r matches Err(m2) && m2@ == m),
{
    let v = chars_of(response);
    let css = if let Some(start) = find_str(&v, "```css") {
        proof {
            lemma_find_from(v@, "```css"@, 0);
            reveal_strlit("```css");
        }
        let n = v.len();
        assert(start + 6 <= n);
        let content_start = start + 6;
        if let Some(end) = find_str_in_tail(&v, content_start, "```") {
            trimmed_string(&v, content_start, content_start + end)
        } else {
            return Err("Malformed CSS code block".to_owned());
        }
    } else {
        if let Some(start) = find_str(&v, "```") {
            proof {
                lemma_find_from(v@, "```"@, 0);
                reveal_strlit("```");
            }
            let n = v.len();
            assert(start + 3 <= n);
            let content_start = match find_char_in_tail(&v, start, '\n') {
                Some(k) => start + k + 1,
                None => start + 3,
            };
            if let Some(end) = find_str_in_tail(&v, content_start, "```") {
                trimmed_string(&v, content_start, content_start + end)
            } else {
                return Err("Malformed code block".to_owned());
            }
        } else {
            return Err("No CSS code found in response".to_owned());
        }
    };
    let fence = chars_of("```");
    let explanation = if let Some(css_end) = rfind_vec(&v, &fence) {
        proof {
            lemma_rfind_upto(v@, "```"@, v@.len() - 3);
            reveal_strlit("```");
        }
        let n = v.len();
        assert(css_end + 3 <= n);
        trimmed_string(&v, css_end + 3, n)
    } else {
        "No explanation provided".to_owned()
    };
    Ok((css, explanation))
}

/// `find(h[from..], [c])`.
fn find_char_in_tail(h: &Vec<char>, from: usize, c: char) -> (r: Option<usize>)
    requires
        from <= h.len(),
    ensures
        r matches Some(i) ==> find(tail(h@, from as int), seq![c]) == Some(i as int) && from + i
            < h.len(),
        r is None ==> find(tail(h@, from as int), seq![c]) is None,
{
    let t = crate::text::slice_vec(h, from, h.len());
    crate::text::find_char(&t, c)
}

/// The JSON in a model's answer: the trimmed body of the first fenced block
/// marked `json` that is closed, else the trimmed text from the first `'{'`
/// to the last `'}'`.
pub open spec fn json_answer(r: Seq<char>) -> Option<Seq<char>> {
    let fenced = match find(r, "```json"@) {
        Some(start) => match find(tail(r, start + 7), "```"@) {
            Some(end) => Some(trim(r.subrange(start + 7, start + 7 + end))),
            None => None,
        },
        None => None,
    };
    match fenced {
        Some(j) => Some(j),
        None => match (find(r, seq!['{']), rfind(r, seq!['}'])) {
            (Some(a), Some(b)) => Some(trim(r.subrange(a, b + 1))),
            _ => None,
        },
    }
}

/// `json_answer` never slices backwards: where it falls back to braces, the
/// last `'}'` is not before the first `'{'` minus one.
pub open spec fn json_answer_ok(r: Seq<char>) -> bool {
    (find(r, seq!['{']), rfind(r, seq!['}'])) matches (Some(a), Some(b)) ==> a <= b + 1
}

/// Reads the JSON out of a model's answer.
pub fn extract_json_from_response(response: &str) -> (r: Result<String, String>)
    requires
        json_answer_ok(response@),
    ensures
        json_answer(response@) matches Some(j) ==> (r matches Ok(s) && s@ == j),
        json_answer(response@) is None ==> (r matches Err(m) && m@
            == "No valid JSON found in response"@),
{
    let v = chars_of(response);
    if let Some(start) = find_str(&v, "```json") {
        proof {
            lemma_find_from(v@, "```json"@, 0);
            reveal_strlit("```json");
        }
        let n = v.len();
        assert(start + 7 <= n);
        let content_start = start + 7;
        if let Some(end) = find_str_in_tail(&v, content_start, "```") {
            return Ok(trimmed_string(&v, content_start, content_start + end));
        }
    }
    if let Some(start) = crate::text::find_char(&v, '{') {
        let close: Vec<char> = vec!['}'];
        assert(close@ =~= seq!['}']);
        if let Some(end) = rfind_vec(&v, &close) {
            proof {
                lemma_rfind_upto(v@, seq!['}'], v@.len() - 1);
            }
            return Ok(trimmed_string(&v, start, end + 1));
        }
    }
    Err("No valid JSON found in response".to_owned())
}

// ---------------------------------------------------------------------------
// Accessibility notes
// ---------------------------------------------------------------------------

/// The note on text colours.
pub open spec fn note_contrast() -> Seq<char> {
    "• Ensure text colors have sufficient contrast (4.5:1 ratio minimum)"@
}

/// The note on focus styles.
pub open spec fn note_focus() -> Seq<char> {
    "• Add :focus styles to match :hover for keyboard accessibility"@
}

/// The note on font sizes.
pub open spec fn note_font() -> Seq<char> {
    "• Verify font sizes are at least 16px for body text"@
}

/// The note on motion.
pub open spec fn note_motion() -> Seq<char> {
    "• Consider adding @media (prefers-reduced-motion) for users sensitive to motion"@
}

/// The notes that apply to `css`, in order.
pub open spec fn accessibility_notes(css: Seq<char>) -> Seq<Seq<char>> {
    let n1: Seq<Seq<char>> = if contains(css, "color:"@) {
        seq![note_contrast()]
    } else {
        Seq::empty()
    };
    let n2: Seq<Seq<char>> = if contains(css, ":hover"@) && !contains(css, ":focus"@) {
        seq![note_focus()]
    } else {
        Seq::empty()
    };
    let n3: Seq<Seq<char>> = if contains(css, "font-size"@) {
        seq![note_font()]
    } else {
        Seq::empty()
    };
    let n4: Seq<Seq<char>> = if contains(css, "animation"@) || contains(css, "transition"@) {
        seq![note_motion()]
    } else {
        Seq::empty()
    };
    n1 + n2 + n3 + n4
}

/// The accessibility hints for `css`: the notes that apply, one per line,
/// or a fixed sentence where none does.
pub open spec fn accessibility_text(css: Seq<char>) -> Seq<char> {
    let notes = accessibility_notes(css);
    if notes.len() == 0 {
        "No specific accessibility concerns detected. Always test with real users."@
    } else {
        join(notes, "\n"@)
    }
}

/// The note at position `k` of the notes for `css` stands in the hints.
proof fn lemma_hints_hold_note(css: Seq<char>, k: int)
    requires
        0 <= k < accessibility_notes(css).len(),
    ensures
        contains(accessibility_text(css), accessibility_notes(css)[k]),
{
    let notes = accessibility_notes(css);
    lemma_join_holds_part(notes, "\n"@, k);
    let j = choose|j: int| occurs_at(join(notes, "\n"@), notes[k], j);
    lemma_contains_at(accessibility_text(css), notes[k], j);
}

/// The accessibility hints name every concern the CSS raises: text
/// colours (`"color:"`) the contrast note, hover styles without focus
/// styles the focus note, font sizes the font note, and any animation or
/// transition the reduced-motion note.
pub proof fn law_accessibility_notes(css: Seq<char>)
    ensures
        contains(css, "color:"@) ==> contains(accessibility_text(css), note_contrast()),
        contains(css, ":hover"@) && !contains(css, ":focus"@) ==> contains(
            accessibility_text(css),
            note_focus(),
        ),
        contains(css, "font-size"@) ==> contains(accessibility_text(css), note_font()),
        contains(css, "animation"@) || contains(css, "transition"@) ==> contains(
            accessibility_text(css),
            note_motion(),
        ),
{
    let notes = accessibility_notes(css);
    let c1: int = if contains(css, "color:"@) { 1 } else { 0 };
    let c2: int = if contains(css, ":hover"@) && !contains(css, ":focus"@) { 1 } else { 0 };
    let c3: int = if contains(css, "font-size"@) { 1 } else { 0 };
    if contains(css, "color:"@) {
        assert(notes[0] == note_contrast());
        lemma_hints_hold_note(css, 0);
    }
    if contains(css, ":hover"@) && !contains(css, ":focus"@) {
        assert(notes[c1] == note_focus());
        lemma_hints_hold_note(css, c1);
    }
    if contains(css, "font-size"@) {
        assert(notes[c1 + c2] == note_font());
        lemma_hints_hold_note(css, c1 + c2);
    }
    if contains(css, "animation"@) || contains(css, "transition"@) {
        assert(notes[c1 + c2 + c3] == note_motion());
        lemma_hints_hold_note(css, c1 + c2 + c3);
    }
}

/// Appends one note to the joined notes so far.
fn push_note(out: &mut String, count: &mut usize, note: &str, ghost_notes: Ghost<Seq<Seq<char>>>)
    requires
        old(out)@ == join(ghost_notes@, "\n"@),
        *old(count) == ghost_notes@.len(),
        *old(count) < usize::MAX,
    ensures
        final(out)@ == join(ghost_notes@.push(note@), "\n"@),
        *final(count) == ghost_notes@.len() + 1,
{
    let ghost ns = ghost_notes@.push(note@);
    if *count > 0 {
        append_str(out, "\n");
        assert(ns.drop_last() =~= ghost_notes@);
    } else {
        assert(ghost_notes@.len() == 0);
        assert(ns.len() == 1);
    }
    append_str(out, note);
    *count = *count + 1;
}

/// Static accessibility hints for generated CSS.
pub fn generate_accessibility_notes(css: &str) -> (r: String)
    ensures
        r@ == accessibility_text(css@),
{
    let v = chars_of(css);
    let mut out = String::new();
    let mut count: usize = 0;
    let ghost mut notes: Seq<Seq<char>> = Seq::empty();
    if contains_str(&v, "color:") {
        push_note(&mut out, &mut count, "• Ensure text colors have sufficient contrast (4.5:1 ratio minimum)", Ghost(notes));
        proof { notes = notes.push(note_contrast()); }
    }
    if contains_str(&v, ":hover") && !contains_str(&v, ":focus") {
        push_note(&mut out, &mut count, "• Add :focus styles to match :hover for keyboard accessibility", Ghost(notes));
        proof { notes = notes.push(note_focus()); }
    }
    if contains_str(&v, "font-size") {
        push_note(&mut out, &mut count, "• Verify font sizes are at least 16px for body text", Ghost(notes));
        proof { notes = notes.push(note_font()); }
    }
    if contains_str(&v, "animation") || contains_str(&v, "transition") {
        push_note(
            &mut out,
            &mut count,
            "• Consider adding @media (prefers-reduced-motion) for users sensitive to motion",
            Ghost(notes),
        );
        proof { notes = notes.push(note_motion()); }
    }
    assert(notes =~= accessibility_notes(css@));
    if count == 0 {
        "No specific accessibility concerns detected. Always test with real users.".to_owned()
    } else {
        out
    }
}

/// The colours of a theme, as hex codes.
#[derive(Debug, Clone)]
pub struct ColorScheme {
    pub primary: String,
    pub secondary: String,
    pub background: String,
    pub surface: String,
    pub text: String,
    pub text_secondary: String,
    pub accent: String,
    pub error: String,
    pub warning: String,
    pub success: String,
}

/// Design tokens by kind, each a list of names and values.
#[derive(Debug, Clone)]
pub struct DesignTokens {
    pub colors: Vec<(String, String)>,
    pub spacing: Vec<(String, String)>,
    pub typography: Vec<(String, String)>,
    pub shadows: Vec<(String, String)>,
    pub radii: Vec<(String, String)>,
}

/// The names and values of a token list.
pub open spec fn token_pairs(v: Seq<(String, String)>) -> Seq<(Seq<char>, Seq<char>)> {
    v.map_values(|p: (String, String)| (p.0@, p.1@))
}

/// One CSS custom property per token, `  --<prefix>-<name>: <value>;`, in
/// the order of the list.
pub open spec fn css_vars(prefix: Seq<char>, tokens: Seq<(Seq<char>, Seq<char>)>) -> Seq<char>
    decreases tokens.len(),
{
    if tokens.len() == 0 {
        Seq::empty()
    } else {
        css_vars(prefix, tokens.drop_last()) + "  --"@ + prefix + "-"@ + tokens.last().0 + ": "@
            + tokens.last().1 + ";\n"@
    }
}

/// The CSS of design tokens: a `:root` rule declaring the colours,
/// spacings, fonts, shadows and radii as custom properties.
pub open spec fn tokens_css(t: DesignTokens) -> Seq<char> {
    ":root {\n"@ + css_vars("color"@, token_pairs(t.colors@)) + css_vars("spacing"@, token_pairs(
        t.spacing@,
    )) + css_vars("font"@, token_pairs(t.typography@)) + css_vars("shadow"@, token_pairs(
        t.shadows@,
    )) + css_vars("radius"@, token_pairs(t.radii@)) + "}\n"@
}

/// The declaration of one token: `  --<prefix>-<name>: <value>;\n`.
pub open spec fn token_declaration(prefix: Seq<char>, name: Seq<char>, value: Seq<char>) -> Seq<char> {
    "  --"@ + prefix + "-"@ + name + ": "@ + value + ";\n"@
}

/// Every token's declaration stands in the custom properties of a list.
proof fn lemma_css_vars_hold(prefix: Seq<char>, tokens: Seq<(Seq<char>, Seq<char>)>, k: int)
    requires
        0 <= k < tokens.len(),
    ensures
        contains(css_vars(prefix, tokens), token_declaration(prefix, tokens[k].0, tokens[k].1)),
    decreases tokens.len(),
{
    let init = css_vars(prefix, tokens.drop_last());
    let d = token_declaration(prefix, tokens.last().0, tokens.last().1);
    assert(css_vars(prefix, tokens) =~= init + d);
    if k == tokens.len() - 1 {
        assert((init + d).subrange(init.len() as int, (init.len() + d.len()) as int) =~= d);
        lemma_contains_at(init + d, d, init.len() as int);
    } else {
        assert(tokens.drop_last()[k] == tokens[k]);
        lemma_css_vars_hold(prefix, tokens.drop_last(), k);
        lemma_contains_within(Seq::empty(), init, d, token_declaration(prefix, tokens[k].0, tokens[k].1));
        assert(Seq::<char>::empty() + init + d =~= init + d);
    }
}

/// The CSS of design tokens declares every token of every group, each as a
/// custom property named after its group (`color`, `spacing`, `font`,
/// `shadow`, `radius`) and its name, with its value.
#[verifier::spinoff_prover]
pub proof fn law_tokens_css_declares_all(t: DesignTokens, k: int)
    ensures
        0 <= k < t.colors@.len() ==> contains(tokens_css(t), token_declaration(
            "color"@,
            t.colors@[k].0@,
            t.colors@[k].1@,
        )),
        0 <= k < t.spacing@.len() ==> contains(tokens_css(t), token_declaration(
            "spacing"@,
            t.spacing@[k].0@,
            t.spacing@[k].1@,
        )),
        0 <= k < t.typography@.len() ==> contains(tokens_css(t), token_declaration(
            "font"@,
            t.typography@[k].0@,
            t.typography@[k].1@,
        )),
        0 <= k < t.shadows@.len() ==> contains(tokens_css(t), token_declaration(
            "shadow"@,
            t.shadows@[k].0@,
            t.shadows@[k].1@,
        )),
        0 <= k < t.radii@.len() ==> contains(tokens_css(t), token_declaration(
            "radius"@,
            t.radii@[k].0@,
            t.radii@[k].1@,
        )),
{
    let v1 = css_vars("color"@, token_pairs(t.colors@));
    let v2 = css_vars("spacing"@, token_pairs(t.spacing@));
    let v3 = css_vars("font"@, token_pairs(t.typography@));
    let v4 = css_vars("shadow"@, token_pairs(t.shadows@));
    let v5 = css_vars("radius"@, token_pairs(t.radii@));
    let head = ":root {\n"@;
    let end = "}\n"@;
    let whole = tokens_css(t);
    assert(whole == head + v1 + v2 + v3 + v4 + v5 + end);
    if 0 <= k < t.colors@.len() {
        assert(contains(whole, token_declaration("color"@, t.colors@[k].0@, t.colors@[k].1@))) by {
            lemma_css_vars_hold("color"@, token_pairs(t.colors@), k);
            lemma_contains_within(head, v1, v2 + v3 + v4 + v5 + end, token_declaration("color"@, t.colors@[k].0@, t.colors@[k].1@));
            assert(head + v1 + (v2 + v3 + v4 + v5 + end) =~= whole);
        }
    }
    if 0 <= k < t.spacing@.len() {
        assert(contains(whole, token_declaration("spacing"@, t.spacing@[k].0@, t.spacing@[k].1@))) by {
            lemma_css_vars_hold("spacing"@, token_pairs(t.spacing@), k);
            lemma_contains_within(head + v1, v2, v3 + v4 + v5 + end, token_declaration("spacing"@, t.spacing@[k].0@, t.spacing@[k].1@));
            assert(head + v1 + v2 + (v3 + v4 + v5 + end) =~= whole);
        }
    }
    if 0 <= k < t.typography@.len() {
        assert(contains(whole, token_declaration("font"@, t.typography@[k].0@, t.typography@[k].1@))) by {
            lemma_css_vars_hold("font"@, token_pairs(t.typography@), k);
            lemma_contains_within(head + v1 + v2, v3, v4 + v5 + end, token_declaration("font"@, t.typography@[k].0@, t.typography@[k].1@));
            assert(head + v1 + v2 + v3 + (v4 + v5 + end) =~= whole);
        }
    }
    if 0 <= k < t.shadows@.len() {
        assert(contains(whole, token_declaration("shadow"@, t.shadows@[k].0@, t.shadows@[k].1@))) by {
            lemma_css_vars_hold("shadow"@, token_pairs(t.shadows@), k);
            lemma_contains_within(head + v1 + v2 + v3, v4, v5 + end, token_declaration("shadow"@, t.shadows@[k].0@, t.shadows@[k].1@));
            assert(head + v1 + v2 + v3 + v4 + (v5 + end) =~= whole);
        }
    }
    if 0 <= k < t.radii@.len() {
        assert(contains(whole, token_declaration("radius"@, t.radii@[k].0@, t.radii@[k].1@))) by {
            lemma_css_vars_hold("radius"@, token_pairs(t.radii@), k);
            lemma_contains_within(head + v1 + v2 + v3 + v4, v5, end, token_declaration("radius"@, t.radii@[k].0@, t.radii@[k].1@));
        }
    }
}

/// Appends a custom property for each token of `tokens`.
fn push_css_vars(out: &mut String, prefix: &str, tokens: &Vec<(String, String)>)
    ensures
        final(out)@ == old(out)@ + css_vars(prefix@, token_pairs(tokens@)),
{
    let ghost start = out@;
    let mut i: usize = 0;
    while i < tokens.len()
        invariant
            i <= tokens.len(),
            out@ == start + css_vars(prefix@, token_pairs(tokens@.take(i as int))),
        decreases tokens.len() - i,
    {
        assert(token_pairs(tokens@.take(i + 1)).drop_last() =~= token_pairs(tokens@.take(i as int)));
        assert(token_pairs(tokens@.take(i + 1)).last() == (tokens@[i as int].0@, tokens@[i as int].1@));
        let ghost before = out@;
        append_str(out, "  --");
        append_str(out, prefix);
        append_str(out, "-");
        append_str(out, tokens[i].0.as_str());
        append_str(out, ": ");
        append_str(out, tokens[i].1.as_str());
        append_str(out, ";\n");
        assert(out@ =~= before + ("  --"@ + prefix@ + "-"@ + tokens@[i as int].0@ + ": "@
            + tokens@[i as int].1@ + ";\n"@));
        i += 1;
    }
    assert(tokens@.take(tokens.len() as int) =~= tokens@);
}

/// Turns design tokens into CSS custom properties on `:root`.
pub fn design_tokens_to_css(tokens: &DesignTokens) -> (r: Result<String, String>)
    ensures
        r matches Ok(css) && css@ == tokens_css(*tokens),
{
    let mut css = ":root {\n".to_owned();
    push_css_vars(&mut css, "color", &tokens.colors);
    push_css_vars(&mut css, "spacing", &tokens.spacing);
    push_css_vars(&mut css, "font", &tokens.typography);
    push_css_vars(&mut css, "shadow", &tokens.shadows);
    push_css_vars(&mut css, "radius", &tokens.radii);
    append_str(&mut css, "}\n");
    assert(css@ =~= tokens_css(*tokens));
    Ok(css)
}

/// The prompt that asks for a colour scheme of the theme `theme` ("light"
/// or "dark") built on `base_color`.
pub open spec fn color_scheme_prompt_text(theme: Seq<char>, base_color: Seq<char>) -> Seq<char> {
    "Generate a complete, professional "@ + theme + " color scheme based on the primary color "@
        + base_color + COLOR_SCHEME_TAIL@
}

/// The part of the colour-scheme prompt after the base colour.
pub const COLOR_SCHEME_TAIL: &'static str = ".

Provide colors in hex format for:
- primary: The base color provided
- secondary: A complementary color
- background: Main background color
- surface: Card/surface background
- text: Primary text color
- text_secondary: Secondary/muted text
- accent: Accent/highlight color
- error: Error state color
- warning: Warning state color
- success: Success state color

Return ONLY valid JSON in this exact format:
{
  \"primary\": \"#hexcode\",
  \"secondary\": \"#hexcode\",
  \"background\": \"#hexcode\",
  \"surface\": \"#hexcode\",
  \"text\": \"#hexcode\",
  \"text_secondary\": \"#hexcode\",
  \"accent\": \"#hexcode\",
  \"error\": \"#hexcode\",
  \"warning\": \"#hexcode\",
  \"success\": \"#hexcode\"
}

Ensure colors have proper contrast ratios (WCAG AA minimum):
- Text on background: at least 4.5:1
- Text on surface: at least 4.5:1";

/// Builds the prompt that asks the model for a colour scheme.
pub fn color_scheme_prompt(theme: &str, base_color: &str) -> (r: String)
    ensures
        r@ == color_scheme_prompt_text(theme@, base_color@),
{
    let mut r = "Generate a complete, professional ".to_owned();
    append_str(&mut r, theme);
    append_str(&mut r, " color scheme based on the primary color ");
    append_str(&mut r, base_color);
    append_str(&mut r, COLOR_SCHEME_TAIL);
    r
}

/// The prompt that asks for improvements of `css` towards the goals
/// `goals`, joined with commas.
pub open spec fn improvements_prompt_text(goals: Seq<Seq<char>>, css: Seq<char>) -> Seq<char> {
    "Analyze this CSS and suggest specific improvements to achieve these goals: "@ + join(
        goals,
        ", "@,
    ) + "\n\nCurrent CSS:\n```css\n"@ + css + IMPROVEMENTS_TAIL@
}

/// The part of the improvements prompt after the CSS.
pub const IMPROVEMENTS_TAIL: &'static str = "
```

Provide 3-5 specific, actionable suggestions. For each suggestion:
1. What to change
2. Why it improves the design
3. The updated CSS code

Return as JSON array:
[
  {
    \"title\": \"Suggestion title\",
    \"description\": \"Why this helps\",
    \"css\": \"Updated CSS code\",
    \"impact\": \"high|medium|low\"
  }
]";

/// Builds the prompt that asks the model for design improvements.
pub fn improvements_prompt(goals: &Vec<String>, current_css: &str) -> (r: String)
    ensures
        r@ == improvements_prompt_text(goals.deep_view(), current_css@),
{
    let mut r = "Analyze this CSS and suggest specific improvements to achieve these goals: ".to_owned();
    let joined = crate::chat::join_strings(goals, ", ");
    append_str(&mut r, joined.as_str());
    append_str(&mut r, "\n\nCurrent CSS:\n```css\n");
    append_str(&mut r, current_css);
    append_str(&mut r, IMPROVEMENTS_TAIL);
    r
}

/// The prompt that asks for an accessibility review of `css`.
pub open spec fn accessibility_prompt_text(css: Seq<char>) -> Seq<char> {
    "Analyze this CSS for accessibility issues according to WCAG 2.1 guidelines.\n\nCSS:\n```css\n"@
        + css + ACCESSIBILITY_TAIL@
}

/// The part of the accessibility prompt after the CSS.
pub const ACCESSIBILITY_TAIL: &'static str = "
```

Check for:
- Color contrast ratios (minimum 4.5:1 for normal text, 3:1 for large text)
- Focus indicators
- Color as sole indicator
- Font sizes (minimum 16px for body text)
- Touch target sizes (minimum 44x44px for interactive elements)

Return as JSON:
{
  \"score\": 85,
  \"level\": \"AA\",
  \"issues\": [
    {
      \"severity\": \"high|medium|low\",
      \"description\": \"Issue description\",
      \"suggestion\": \"How to fix\",
      \"wcag_criterion\": \"1.4.3\"
    }
  ],
  \"passed_checks\": [\"List of passed checks\"],
  \"summary\": \"Overall assessment\"
}";

/// Builds the prompt that asks the model for an accessibility review.
pub fn accessibility_prompt(css: &str) -> (r: String)
    ensures
        r@ == accessibility_prompt_text(css@),
{
    let mut r =
        "Analyze this CSS for accessibility issues according to WCAG 2.1 guidelines.\n\nCSS:\n```css\n".to_owned();
    append_str(&mut r, css);
    append_str(&mut r, ACCESSIBILITY_TAIL);
    r
}

} // verus!
