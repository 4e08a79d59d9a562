//! Diff-based edits: line diffs of a file against a model's rewrite, and
//! the application of diff hunks to a text.

use vstd::prelude::*;

use crate::text::{
    append_range, append_str, chars_of, find, find_from, find_str, find_str_in_tail, join,
    lemma_find_first, lemma_find_from, lines, lines_exec, occurs_at, slice_vec, strip_last,
    string_of,
    string_of_all, tail,
};

use similar::{ChangeTag, TextDiff};

verus! {

broadcast use vstd::string::group_string_axioms;

/// What the user asks to be edited.
#[derive(Debug)]
pub struct DiffRequest {
    pub file_path: String,
    pub original_content: String,
    pub instructions: String,
}

/// A diff, as hunks and as a readable preview.
#[derive(Debug)]
pub struct DiffResponse {
    pub hunks: Vec<DiffHunk>,
    pub preview: String,
}

/// A run of changed lines: the old lines it removes at `old_start` and the
/// new lines it puts there (`new_start` in the new text).
#[derive(Debug, Clone)]
pub struct DiffHunk {
    pub old_start: usize,
    pub old_lines: Vec<String>,
    pub new_start: usize,
    pub new_lines: Vec<String>,
    pub context_before: Vec<String>,
    pub context_after: Vec<String>,
}

/// A hunk as values.
pub struct HunkView {
    pub old_start: nat,
    pub old_lines: Seq<Seq<char>>,
    pub new_start: nat,
    pub new_lines: Seq<Seq<char>>,
    pub context_before: Seq<Seq<char>>,
    pub context_after: Seq<Seq<char>>,
}

impl View for DiffHunk {
    type V = HunkView;

    open spec fn view(&self) -> HunkView {
        HunkView {
            old_start: self.old_start as nat,
            old_lines: self.old_lines.deep_view(),
            new_start: self.new_start as nat,
            new_lines: self.new_lines.deep_view(),
            context_before: self.context_before.deep_view(),
            context_after: self.context_after.deep_view(),
        }
    }
}

/// The views of `hs`.
pub open spec fn hunk_views(hs: Seq<DiffHunk>) -> Seq<HunkView> {
    hs.map_values(|h: DiffHunk| h@)
}

// ---------------------------------------------------------------------------
// Line changes from the `similar` crate
// ---------------------------------------------------------------------------

/// The kind of one line change.
#[derive(Debug, Clone, Copy, PartialEq, Eq, Structural)]
pub enum ChangeKind {
    Equal,
    Delete,
    Insert,
}

/// One line of a diff: its kind and its text, line ending included.
pub struct LineChangeItem {
    pub kind: ChangeKind,
    pub value: String,
}

/// What `TextDiff::from_lines(old, new).iter_all_changes()` yields, as
/// (kind, text) pairs: the crate's line diff of `old` against `new`.
pub uninterp spec fn similar_line_changes(old: Seq<char>, new: Seq<char>) -> Seq<(ChangeKind, Seq<char>)>;

/// The first position at or after `i` of a line break (`'\r'` or
/// `'\n'`) in `s`, or its length where there is none.
pub open spec fn first_break(s: Seq<char>, i: int) -> int
    decreases s.len() - i,
{
    if i >= s.len() {
        s.len() as int
    } else if s[i] == '\r' || s[i] == '\n' {
        i
    } else {
        first_break(s, i + 1)
    }
}

/// Where the line that starts `s` ends, its line break included: after
/// `"\r\n"`, a lone `'\r'` or `'\n'`, or at the end of `s`.
pub open spec fn line_end(s: Seq<char>) -> int {
    let k = first_break(s, 0);
    if k >= s.len() {
        s.len() as int
    } else if s[k] == '\r' && k + 1 < s.len() && s[k + 1] == '\n' {
        k + 2
    } else {
        k + 1
    }
}

/// The lines of `s`, each with its line break, as the `similar` crate cuts
/// a text into lines (`"\r\n"`, a lone `'\r'` and `'\n'` each end a line).
pub open spec fn line_tokens(s: Seq<char>) -> Seq<Seq<char>>
    decreases s.len(),
{
    if s.len() == 0 {
        Seq::empty()
    } else {
        let e = line_end(s);
        if 0 < e <= s.len() {
            seq![s.subrange(0, e)] + line_tokens(s.subrange(e, s.len() as int))
        } else {
            seq![s]
        }
    }
}

/// The texts of the changes of `cs` that belong to one side, in order: the
/// old side (equal and deleted lines) where `old_side`, the new side (equal
/// and inserted lines) otherwise.
pub open spec fn side_tokens(cs: Seq<(ChangeKind, Seq<char>)>, old_side: bool) -> Seq<Seq<char>>
    decreases cs.len(),
{
    if cs.len() == 0 {
        Seq::empty()
    } else {
        let k = cs.last().0;
        let keep = k == ChangeKind::Equal || (if old_side {
            k == ChangeKind::Delete
        } else {
            k == ChangeKind::Insert
        });
        if keep {
            side_tokens(cs.drop_last(), old_side).push(cs.last().1)
        } else {
            side_tokens(cs.drop_last(), old_side)
        }
    }
}

/// `similar::TextDiff::from_lines(old, new).iter_all_changes()`, each change
/// as its kind and its text. The changes are the crate's line diff, named
/// `similar_line_changes`; their old-side texts (equal and deleted lines)
/// are the lines of `old` in order, and their new-side texts (equal and
/// inserted lines) the lines of `new`, each line with its line break, as
/// the crate cuts texts into lines. Which lines the diff pairs is not
/// stated.
#[verifier::external_body]
fn line_changes(old: &str, new: &str) -> (r: Vec<LineChangeItem>)
    ensures
        r@.map_values(|c: LineChangeItem| (c.kind, c.value@)) == similar_line_changes(old@, new@),
        side_tokens(r@.map_values(|c: LineChangeItem| (c.kind, c.value@)), true) == line_tokens(old@),
        side_tokens(r@.map_values(|c: LineChangeItem| (c.kind, c.value@)), false) == line_tokens(new@),
{
    TextDiff::from_lines(old, new).iter_all_changes().map(|c| LineChangeItem {
        kind: match c.tag() {
            ChangeTag::Equal => ChangeKind::Equal,
            ChangeTag::Delete => ChangeKind::Delete,
            ChangeTag::Insert => ChangeKind::Insert,
        },
        value: c.value().to_string(),
    }).collect()
}

// ---------------------------------------------------------------------------
// Grouping changes into hunks
// ---------------------------------------------------------------------------

/// `s` without all of its trailing `c` (`str::trim_end_matches`).
pub open spec fn trim_end_char(s: Seq<char>, c: char) -> Seq<char>
    decreases s.len(),
{
    if s.len() > 0 && s.last() == c {
        trim_end_char(s.drop_last(), c)
    } else {
        s
    }
}

/// The state of the grouping after some changes.
pub struct Grouping {
    pub hunks: Seq<HunkView>,
    pub current: Option<HunkView>,
    pub old_line: nat,
    pub new_line: nat,
    pub preview: Seq<char>,
}

/// The empty hunk that starts at the given lines.
pub open spec fn fresh_hunk(old_line: nat, new_line: nat) -> HunkView {
    HunkView {
        old_start: old_line,
        old_lines: Seq::empty(),
        new_start: new_line,
        new_lines: Seq::empty(),
        context_before: Seq::empty(),
        context_after: Seq::empty(),
    }
}

/// What one change does to the grouping: an equal line closes the open
/// hunk; a deleted or inserted line joins the open hunk (opening one where
/// none is open).
pub open spec fn group_step(g: Grouping, c: (ChangeKind, Seq<char>)) -> Grouping {
    let line = trim_end_char(c.1, '\n');
    let open = match g.current {
        Some(h) => h,
        None => fresh_hunk(g.old_line, g.new_line),
    };
    match c.0 {
        ChangeKind::Equal => Grouping {
            hunks: match g.current {
                Some(h) => g.hunks.push(h),
                None => g.hunks,
            },
            current: None,
            old_line: g.old_line + 1,
            new_line: g.new_line + 1,
            preview: g.preview + "  "@ + line + "\n"@,
        },
        ChangeKind::Delete => Grouping {
            current: Some(HunkView { old_lines: open.old_lines.push(line), ..open }),
            old_line: g.old_line + 1,
            preview: g.preview + "- "@ + line + "\n"@,
            ..g
        },
        ChangeKind::Insert => Grouping {
            current: Some(HunkView { new_lines: open.new_lines.push(line), ..open }),
            new_line: g.new_line + 1,
            preview: g.preview + "+ "@ + line + "\n"@,
            ..g
        },
    }
}

/// The grouping after all of `cs`.
pub open spec fn group_changes(cs: Seq<(ChangeKind, Seq<char>)>) -> Grouping
    decreases cs.len(),
{
    if cs.len() == 0 {
        Grouping { hunks: Seq::empty(), current: None, old_line: 0, new_line: 0, preview: Seq::empty() }
    } else {
        group_step(group_changes(cs.drop_last()), cs.last())
    }
}

/// The hunks of a grouping, with the one still open.
pub open spec fn closed_hunks(g: Grouping) -> Seq<HunkView> {
    match g.current {
        Some(h) => g.hunks.push(h),
        None => g.hunks,
    }
}

/// A diff: its hunks and its preview.
#[derive(Debug)]
pub struct DiffResult {
    pub hunks: Vec<DiffHunk>,
    pub preview: String,
}

/// The line diff of `old` against `new`, as hunks of changed lines and a
/// preview that marks each line `"  "`, `"- "` or `"+ "`.
pub fn compute_diff(old: &str, new: &str) -> (r: DiffResult)
    ensures
        hunk_views(r.hunks@) == closed_hunks(group_changes(similar_line_changes(old@, new@))),
        r.preview@ == group_changes(similar_line_changes(old@, new@)).preview,
        no_cr(old@) && no_cr(new@) && lines(old@).len() <= usize::MAX ==> {
            &&& apply_ok(lines(old@), sort_desc(hunk_views(r.hunks@)))
            &&& applied(old@, hunk_views(r.hunks@)) == join(lines(new@), "\n"@)
        },
{
    let changes = line_changes(old, new);
    let ghost cs = similar_line_changes(old@, new@);
    let mut hunks: Vec<DiffHunk> = Vec::new();
    let mut preview = String::new();
    let mut old_line: usize = 0;
    let mut new_line: usize = 0;
    let mut current: Option<DiffHunk> = None;
    let mut i: usize = 0;
    while i < changes.len()
        invariant
            i <= changes.len(),
            changes@.map_values(|c: LineChangeItem| (c.kind, c.value@)) == cs,
            old_line <= i,
            new_line <= i,
            ({
                let g = group_changes(cs.take(i as int));
                &&& hunk_views(hunks@) == g.hunks
                &&& current.is_some() == g.current.is_some()
                &&& (current matches Some(h) ==> Some(h@) == g.current)
                &&& old_line == g.old_line
                &&& new_line == g.new_line
                &&& preview@ == g.preview
            }),
        decreases changes.len() - i,
    {
        let ghost g0 = group_changes(cs.take(i as int));
        proof {
            assert(cs.take(i + 1).drop_last() =~= cs.take(i as int));
            assert(cs.take(i + 1).last() == cs[i as int]);
            assert(cs[i as int] == (changes@[i as int].kind, changes@[i as int].value@));
        }
        let change = &changes[i];
        let line = trim_newlines(&change.value);
        match change.kind {
            ChangeKind::Equal => {
                if let Some(h) = current.take() {
                    let ghost before = hunks@;
                    hunks.push(h);
                    assert(hunk_views(hunks@) =~= hunk_views(before).push(h@));
                }
                old_line += 1;
                new_line += 1;
                append_str(&mut preview, "  ");
            },
            ChangeKind::Delete => {
                let mut h = match current.take() {
                    Some(h) => h,
                    None => empty_hunk(old_line, new_line),
                };
                let ghost hv = h@;
                h.old_lines.push(copy_string(&line));
                assert(h@.old_lines =~= hv.old_lines.push(line@));
                current = Some(h);
                old_line += 1;
                append_str(&mut preview, "- ");
            },
            ChangeKind::Insert => {
                let mut h = match current.take() {
                    Some(h) => h,
                    None => empty_hunk(old_line, new_line),
                };
                let ghost hv = h@;
                h.new_lines.push(copy_string(&line));
                assert(h@.new_lines =~= hv.new_lines.push(line@));
                current = Some(h);
                new_line += 1;
                append_str(&mut preview, "+ ");
            },
        }
        append_str(&mut preview, line.as_str());
        append_str(&mut preview, "\n");
        proof {
            let g1 = group_changes(cs.take(i + 1));
            assert(g1 == group_step(g0, cs[i as int]));
            assert(preview@ =~= g1.preview);
        }
        i += 1;
    }
    assert(cs.take(changes.len() as int) =~= cs);
    if let Some(h) = current {
        let ghost before = hunks@;
        hunks.push(h);
        assert(hunk_views(hunks@) =~= hunk_views(before).push(h@));
    }
    proof {
        if no_cr(old@) && no_cr(new@) && lines(old@).len() <= usize::MAX {
            law_apply_grouped_changes(cs, old@, new@);
        }
    }
    DiffResult { hunks, preview }
}

/// A hunk with no lines yet, starting at the given lines.
fn empty_hunk(old_line: usize, new_line: usize) -> (h: DiffHunk)
    ensures
        h@ == fresh_hunk(old_line as nat, new_line as nat),
{
    let h = DiffHunk {
        old_start: old_line,
        old_lines: Vec::new(),
        new_start: new_line,
        new_lines: Vec::new(),
        context_before: Vec::new(),
        context_after: Vec::new(),
    };
    assert(h@.old_lines =~= Seq::<Seq<char>>::empty());
    assert(h@.new_lines =~= Seq::<Seq<char>>::empty());
    assert(h@.context_before =~= Seq::<Seq<char>>::empty());
    assert(h@.context_after =~= Seq::<Seq<char>>::empty());
    h
}

/// A copy of `s`.
fn copy_string(s: &String) -> (r: String)
    ensures
        r@ == s@,
{
    s.as_str().to_owned()
}

/// `s` without its trailing new lines.
fn trim_newlines(s: &String) -> (r: String)
    ensures
        r@ == trim_end_char(s@, '\n'),
{
    let v = chars_of(s.as_str());
    let mut end = v.len();
    assert(v@.subrange(0, v@.len() as int) =~= v@);
    while end > 0 && v[end - 1] == '\n'
        invariant
            end <= v.len(),
            trim_end_char(v@.subrange(0, end as int), '\n') == trim_end_char(v@, '\n'),
        decreases end,
    {
        assert(v@.subrange(0, end as int).drop_last() =~= v@.subrange(0, end - 1));
        end -= 1;
    }
    string_of(&v, 0, end)
}

// ---------------------------------------------------------------------------
// Code in a model's answer
// ---------------------------------------------------------------------------

/// The code in a model's answer: the lines of the first closed fenced block
/// after its opening line, joined by new lines; the whole answer where
/// there is no closed fenced block.
pub open spec fn code_in_answer(r: Seq<char>) -> Seq<char> {
    match find(r, "```"@) {
        Some(s) => match find(tail(r, s + 3), "```"@) {
            Some(e) => {
                let ls = lines(r.subrange(s + 3, s + 3 + e));
                join(if ls.len() > 0 { ls.drop_first() } else { ls }, "\n"@)
            },
            None => r,
        },
        None => r,
    }
}

/// No character of `s` is `c`.
pub open spec fn free_of(s: Seq<char>, c: char) -> bool {
    forall|i: int| 0 <= i < s.len() ==> s[i] != c
}

/// The code of an answer that is one fenced block, opened by a fence with a
/// language name and closed by a fence, is the block's body: its lines
/// joined by new lines (a body without backticks, a name without
/// backticks or line breaks).
pub proof fn law_code_in_fenced_answer(lang: Seq<char>, body: Seq<char>)
    requires
        free_of(lang, '`'),
        free_of(lang, '\n'),
        free_of(body, '`'),
    ensures
        code_in_answer("```"@ + lang + "\n"@ + body + "```"@) == join(lines(body), "\n"@),
{
    reveal_strlit("```");
    reveal_strlit("\n");
    let f = "```"@;
    let r = f + lang + "\n"@ + body + f;
    let m: int = (lang.len() + 1 + body.len()) as int;
    assert(find(r, f) == Some(0int)) by {
        assert(r.subrange(0, 3) =~= f);
        lemma_find_first(r, f, 0);
    }
    assert(find(tail(r, 3), f) == Some(m)) by {
        let t = tail(r, 3);
        assert(t =~= lang + "\n"@ + body + f);
        assert(t.subrange(m, m + 3) =~= f);
        assert forall|j: int| 0 <= j < m implies !occurs_at(t, f, j) by {
            if occurs_at(t, f, j) {
                assert(t.subrange(j, j + 3)[0] == t[j]);
                if j < lang.len() {
                    assert(t[j] == lang[j]);
                } else if j > lang.len() {
                    assert(t[j] == body[j - lang.len() - 1]);
                }
            }
        }
        lemma_find_first(t, f, m);
    }
    let x = r.subrange(3, 3 + m);
    assert(x =~= lang + "\n"@ + body);
    assert(lines(x).drop_first() =~= lines(body)) by {
        assert(x.subrange(lang.len() as int, lang.len() + 1int) =~= seq!['\n']);
        assert forall|j: int| 0 <= j < lang.len() implies !occurs_at(x, seq!['\n'], j) by {
            if occurs_at(x, seq!['\n'], j) {
                assert(x.subrange(j, j + 1)[0] == x[j]);
                assert(x[j] == lang[j]);
            }
        }
        lemma_find_first(x, seq!['\n'], lang.len() as int);
        assert(x.subrange(lang.len() + 1int, x.len() as int) =~= body);
        assert(lines(x) == seq![strip_last(x.subrange(0, lang.len() as int), '\r')] + lines(body));
    }
}

/// The code in a model's answer (see `code_in_answer`).
pub fn extract_code_from_response(response: &str) -> (r: String)
    ensures
        r@ == code_in_answer(response@),
{
    let v = chars_of(response);
    if let Some(start) = find_str(&v, "```") {
        proof {
            lemma_find_from(v@, "```"@, 0);
            reveal_strlit("```");
        }
        let n = v.len();
        assert(start + 3 <= n);
        let body_start = start + 3;
        if let Some(end) = find_str_in_tail(&v, body_start, "```") {
            let block = slice_vec(&v, body_start, body_start + end);
            let ls = lines_exec(&block);
            let from: usize = if ls.len() > 0 { 1 } else { 0 };
            let ghost lv = ls.deep_view();
            assert(lv.skip(from as int) =~= (if lv.len() > 0 { lv.drop_first() } else { lv }));
            return join_from(&ls, from, "\n");
        }
    }
    response.to_owned()
}

/// `parts[from..]` joined by `sep`.
pub fn join_from(parts: &Vec<Vec<char>>, from: usize, sep: &str) -> (r: String)
    requires
        from <= parts.len(),
    ensures
        r@ == join(parts.deep_view().skip(from as int), sep@),
{
    let mut out = String::new();
    let mut i = from;
    assert(parts.deep_view().skip(from as int).take(0) =~= Seq::<Seq<char>>::empty());
    while i < parts.len()
        invariant
            from <= i <= parts.len(),
            out@ == join(parts.deep_view().skip(from as int).take(i - from), sep@),
        decreases parts.len() - i,
    {
        let ghost pre = parts.deep_view().skip(from as int).take(i - from);
        let ghost next = parts.deep_view().skip(from as int).take(i - from + 1);
        assert(next.drop_last() =~= pre);
        assert(next.last() =~= parts@[i as int]@);
        if i > from {
            append_str(&mut out, sep);
        }
        append_range(&mut out, &parts[i], 0, parts[i].len());
        assert(parts@[i as int]@.subrange(0, parts@[i as int]@.len() as int) =~= parts@[i as int]@);
        i += 1;
    }
    assert(parts.deep_view().skip(from as int).take(parts.len() - from) =~= parts.deep_view().skip(from as int));
    out
}

// ---------------------------------------------------------------------------
// Applying hunks
// ---------------------------------------------------------------------------

/// Where a hunk starting at `k` goes among `sorted` (ordered by start, the
/// latest first): after every hunk that starts at `k` or later.
pub open spec fn insert_pos(sorted: Seq<HunkView>, k: nat) -> int
    decreases sorted.len(),
{
    if sorted.len() == 0 || sorted[0].old_start < k {
        0
    } else {
        1 + insert_pos(sorted.drop_first(), k)
    }
}

/// `hs` ordered by start, the latest first, with hunks that start at the
/// same line kept in their given order (`sort_by_key` on the reversed
/// start).
pub open spec fn sort_desc(hs: Seq<HunkView>) -> Seq<HunkView>
    decreases hs.len(),
{
    if hs.len() == 0 {
        Seq::empty()
    } else {
        let sorted = sort_desc(hs.drop_last());
        sorted.insert(insert_pos(sorted, hs.last().old_start), hs.last())
    }
}

/// One hunk applied to `ls`: its old lines (as far as `ls` has them) give
/// way to its new lines.
pub open spec fn apply_hunk(ls: Seq<Seq<char>>, h: HunkView) -> Seq<Seq<char>> {
    let end: int = (h.old_start + h.old_lines.len()) as int;
    let cut: int = if end < ls.len() { end } else { ls.len() as int };
    ls.subrange(0, h.old_start as int) + h.new_lines + ls.subrange(cut, ls.len() as int)
}

/// `hs` applied to `ls`, in order.
pub open spec fn apply_all(ls: Seq<Seq<char>>, hs: Seq<HunkView>) -> Seq<Seq<char>>
    decreases hs.len(),
{
    if hs.len() == 0 {
        ls
    } else {
        apply_hunk(apply_all(ls, hs.drop_last()), hs.last())
    }
}

/// Applying `hs` to `ls` in order never starts a hunk past the end of the
/// lines (which would panic), and no hunk's end overflows.
pub open spec fn apply_ok(ls: Seq<Seq<char>>, hs: Seq<HunkView>) -> bool
    decreases hs.len(),
{
    if hs.len() == 0 {
        true
    } else {
        &&& apply_ok(ls, hs.drop_last())
        &&& hs.last().old_start <= apply_all(ls, hs.drop_last()).len()
        &&& hs.last().old_start + hs.last().old_lines.len() <= usize::MAX
    }
}

/// The text that applying `hunks` to `original` gives.
pub open spec fn applied(original: Seq<char>, hunks: Seq<HunkView>) -> Seq<char> {
    join(apply_all(lines(original), sort_desc(hunks)), "\n"@)
}

/// Where the scan for the insertion point stops, the insertion point is.
proof fn lemma_insert_pos(sorted: Seq<HunkView>, k: nat, p: int)
    requires
        0 <= p <= sorted.len(),
        forall|j: int| 0 <= j < p ==> #[trigger] sorted[j].old_start >= k,
        p < sorted.len() ==> sorted[p].old_start < k,
    ensures
        insert_pos(sorted, k) == p,
    decreases p,
{
    if p > 0 {
        assert forall|j: int| 0 <= j < p - 1 implies #[trigger] sorted.drop_first()[j].old_start >= k by {
            assert(sorted.drop_first()[j] == sorted[j + 1]);
        }
        lemma_insert_pos(sorted.drop_first(), k, p - 1);
    }
}

/// The positions of `hunks` in the order `sort_desc` puts them.
fn sorted_order(hunks: &Vec<DiffHunk>) -> (order: Vec<usize>)
    ensures
        order@.len() == hunks@.len(),
        forall|j: int| 0 <= j < order@.len() ==> #[trigger] order@[j] < hunks@.len(),
        order@.map_values(|i: usize| hunks@[i as int]@) == sort_desc(hunk_views(hunks@)),
{
    let ghost hv = hunk_views(hunks@);
    let mut order: Vec<usize> = Vec::new();
    let mut i: usize = 0;
    while i < hunks.len()
        invariant
            i <= hunks.len(),
            hv == hunk_views(hunks@),
            order@.len() == i,
            forall|j: int| 0 <= j < order@.len() ==> #[trigger] order@[j] < hunks@.len(),
            order@.map_values(|x: usize| hunks@[x as int]@) == sort_desc(hv.take(i as int)),
        decreases hunks.len() - i,
    {
        let ghost mapped = order@.map_values(|x: usize| hunks@[x as int]@);
        let k = hunks[i].old_start;
        let mut p: usize = 0;
        while p < order.len() && hunks[order[p]].old_start >= k
            invariant
                i < hunks.len(),
                p <= order.len(),
                forall|j: int| 0 <= j < order@.len() ==> #[trigger] order@[j] < hunks@.len(),
                mapped == order@.map_values(|x: usize| hunks@[x as int]@),
                k == hunks@[i as int].old_start,
                forall|j: int| 0 <= j < p ==> #[trigger] mapped[j].old_start >= k,
            decreases order.len() - p,
        {
            p += 1;
        }
        proof {
            lemma_insert_pos(mapped, k as nat, p as int);
            assert(hv.take(i + 1).drop_last() =~= hv.take(i as int));
            assert(hv.take(i + 1).last() == hunks@[i as int]@);
        }
        order.insert(p, i);
        assert(order@.map_values(|x: usize| hunks@[x as int]@) =~= mapped.insert(p as int, hunks@[i as int]@));
        i += 1;
    }
    assert(hv.take(hunks.len() as int) =~= hv);
    order
}

/// The number of lines after one hunk is applied.
proof fn lemma_apply_hunk_len(ls: Seq<Seq<char>>, h: HunkView)
    requires
        h.old_start <= ls.len(),
    ensures
        apply_hunk(ls, h).len() == h.old_start + h.new_lines.len() + (ls.len() - (if h.old_start
            + h.old_lines.len() < ls.len() {
            (h.old_start + h.old_lines.len()) as int
        } else {
            ls.len() as int
        })),
{
}

/// Whether `apply_diff` takes `hunks` for `original`: no hunk starts past
/// the end of the lines it is applied to, and no hunk's end overflows.
pub fn diff_applies(original: &str, hunks: &Vec<DiffHunk>) -> (r: bool)
    ensures
        r == apply_ok(lines(original@), sort_desc(hunk_views(hunks@))),
{
    let v = chars_of(original);
    let ls = lines_exec(&v);
    let order = sorted_order(hunks);
    let ghost sorted = sort_desc(hunk_views(hunks@));
    let ghost l0 = lines(original@);
    let mut len: u128 = ls.len() as u128;
    let mut j: usize = 0;
    assert(sorted.take(0) =~= Seq::<HunkView>::empty());
    while j < order.len()
        invariant
            j <= order.len(),
            order@.len() == hunks@.len(),
            forall|x: int| 0 <= x < order@.len() ==> #[trigger] order@[x] < hunks@.len(),
            order@.map_values(|i: usize| hunks@[i as int]@) == sorted,
            sorted == sort_desc(hunk_views(hunks@)),
            l0 == lines(original@),
            apply_ok(l0, sorted.take(j as int)),
            len == apply_all(l0, sorted.take(j as int)).len(),
            len <= (j + 1) * (usize::MAX as int),
        decreases order.len() - j,
    {
        let h = &hunks[order[j]];
        let ghost before = apply_all(l0, sorted.take(j as int));
        proof {
            assert(sorted[j as int] == h@);
            assert(sorted.take(j + 1).drop_last() =~= sorted.take(j as int));
            assert(sorted.take(j + 1).last() == h@);
        }
        if h.old_start as u128 > len {
            proof {
                if apply_ok(l0, sorted) {
                    lemma_apply_ok_prefix(l0, sorted, j + 1);
                }
            }
            return false;
        }
        if h.old_lines.len() > usize::MAX - h.old_start {
            proof {
                if apply_ok(l0, sorted) {
                    lemma_apply_ok_prefix(l0, sorted, j + 1);
                }
            }
            return false;
        }
        let end = h.old_start + h.old_lines.len();
        let cut: u128 = if (end as u128) < len { end as u128 } else { len };
        proof {
            lemma_apply_hunk_len(before, h@);
            assert(h.new_lines.len() <= usize::MAX);
            assert(j + 1 <= usize::MAX);
            assert((j + 1) * (usize::MAX as int) + usize::MAX == (j + 2) * (usize::MAX as int)) by (nonlinear_arith);
            assert((j + 2) * (usize::MAX as int) <= (usize::MAX as int + 1) * (usize::MAX as int)) by (nonlinear_arith)
                requires
                    j + 1 <= usize::MAX,
            ;
            assert((usize::MAX as int + 1) * (usize::MAX as int) < 0x1_0000_0000_0000_0000_0000_0000_0000_0000) by (nonlinear_arith)
                requires
                    usize::MAX <= 0xffff_ffff_ffff_ffff,
            ;
        }
        len = h.old_start as u128 + h.new_lines.len() as u128 + (len - cut);
        j += 1;
    }
    assert(sorted.take(order.len() as int) =~= sorted);
    true
}

/// Applies diff hunks to a text: the hunks go in order of their start, the
/// latest first, each replacing its old lines with its new lines; the
/// lines are then joined by new lines.
pub fn apply_diff(original: String, hunks: Vec<DiffHunk>) -> (r: Result<String, String>)
    requires
        apply_ok(lines(original@), sort_desc(hunk_views(hunks@))),
    ensures
        r matches Ok(s) && s@ == applied(original@, hunk_views(hunks@)),
{
    let v = chars_of(original.as_str());
    let mut ls = lines_exec(&v);
    let order = sorted_order(&hunks);
    let ghost sorted = sort_desc(hunk_views(hunks@));
    let mut j: usize = 0;
    while j < order.len()
        invariant
            j <= order.len(),
            order@.len() == hunks@.len(),
            forall|x: int| 0 <= x < order@.len() ==> #[trigger] order@[x] < hunks@.len(),
            order@.map_values(|i: usize| hunks@[i as int]@) == sorted,
            apply_ok(lines(original@), sorted),
            ls.deep_view() == apply_all(lines(original@), sorted.take(j as int)),
        decreases order.len() - j,
    {
        let h = &hunks[order[j]];
        proof {
            assert(sorted[j as int] == h@);
            assert(sorted.take(j + 1).drop_last() =~= sorted.take(j as int));
            lemma_apply_ok_prefix(lines(original@), sorted, j + 1);
            assert(sorted.take(j + 1).last() == h@);
        }
        ls = apply_one(&ls, h);
        j += 1;
    }
    assert(sorted.take(order.len() as int) =~= sorted);
    assert(ls.deep_view().skip(0) =~= ls.deep_view());
    Ok(join_from(&ls, 0, "\n"))
}

/// `apply_ok` of a sequence holds of its prefixes.
proof fn lemma_apply_ok_prefix(ls: Seq<Seq<char>>, hs: Seq<HunkView>, n: int)
    requires
        0 <= n <= hs.len(),
        apply_ok(ls, hs),
    ensures
        apply_ok(ls, hs.take(n)),
    decreases hs.len(),
{
    if n == hs.len() {
        assert(hs.take(n) =~= hs);
    } else {
        lemma_apply_ok_prefix(ls, hs.drop_last(), n);
        assert(hs.drop_last().take(n) =~= hs.take(n));
    }
}

/// Appends one line.
fn push_line(r: &mut Vec<Vec<char>>, line: Vec<char>)
    ensures
        final(r).deep_view() == old(r).deep_view().push(line@),
{
    let ghost before = r.deep_view();
    assert(line.deep_view() =~= line@);
    r.push(line);
    assert(r.deep_view() =~= before.push(line@));
}

/// One hunk applied to the lines `ls`.
fn apply_one(ls: &Vec<Vec<char>>, h: &DiffHunk) -> (r: Vec<Vec<char>>)
    requires
        h.old_start <= ls.len(),
        h.old_start + h.old_lines.len() <= usize::MAX,
    ensures
        r.deep_view() == apply_hunk(ls.deep_view(), h@),
{
    let start = h.old_start;
    let end = start + h.old_lines.len();
    let cut = if end < ls.len() { end } else { ls.len() };
    let mut r: Vec<Vec<char>> = Vec::new();
    let mut i: usize = 0;
    while i < start
        invariant
            i <= start <= ls.len(),
            r.deep_view() =~= ls.deep_view().subrange(0, i as int),
        decreases start - i,
    {
        let line = slice_vec(&ls[i], 0, ls[i].len());
        assert(ls[i as int]@.subrange(0, ls[i as int]@.len() as int) =~= ls[i as int]@);
        assert(ls.deep_view()[i as int] =~= ls@[i as int]@);
        push_line(&mut r, line);
        i += 1;
    }
    let mut k: usize = 0;
    while k < h.new_lines.len()
        invariant
            k <= h.new_lines.len(),
            start <= ls.len(),
            r.deep_view() =~= ls.deep_view().subrange(0, start as int) + h.new_lines.deep_view().take(
                k as int,
            ),
        decreases h.new_lines.len() - k,
    {
        let line = chars_of(h.new_lines[k].as_str());
        push_line(&mut r, line);
        k += 1;
    }
    assert(h.new_lines.deep_view().take(h.new_lines.len() as int) =~= h.new_lines.deep_view());
    let ghost mid = r.deep_view();
    let mut i = cut;
    while i < ls.len()
        invariant
            cut <= i <= ls.len(),
            r.deep_view() =~= mid + ls.deep_view().subrange(cut as int, i as int),
        decreases ls.len() - i,
    {
        let line = slice_vec(&ls[i], 0, ls[i].len());
        assert(ls[i as int]@.subrange(0, ls[i as int]@.len() as int) =~= ls[i as int]@);
        assert(ls.deep_view()[i as int] =~= ls@[i as int]@);
        push_line(&mut r, line);
        i += 1;
    }
    r
}

// ---------------------------------------------------------------------------
// Applying a computed diff gives the new text
// ---------------------------------------------------------------------------

/// `s` holds no carriage return.
pub open spec fn no_cr(s: Seq<char>) -> bool {
    forall|i: int| 0 <= i < s.len() ==> #[trigger] s[i] != '\r'
}

/// Each of `ts` without its trailing new lines.
pub open spec fn trimmed_lines(ts: Seq<Seq<char>>) -> Seq<Seq<char>> {
    ts.map_values(|t: Seq<char>| trim_end_char(t, '\n'))
}

/// The hunks of `hs` start at strictly increasing old lines.
pub open spec fn starts_increase(hs: Seq<HunkView>) -> bool {
    forall|i: int, j: int| 0 <= i < j < hs.len() ==> (#[trigger] hs[i]).old_start < (#[trigger] hs[j]).old_start
}

/// Applying `hs` to `o` followed by any lines gives `n` followed by the
/// same lines, and never fails.
pub open spec fn replays(o: Seq<Seq<char>>, n: Seq<Seq<char>>, hs: Seq<HunkView>) -> bool {
    forall|rest: Seq<Seq<char>>|
        #[trigger] apply_all(o + rest, hs) == n + rest && apply_ok(o + rest, hs)
}

/// What holds of the grouping of the changes `q`, whose old-side lines are
/// `o` and new-side lines `n`: the closed hunks replay what lies before the
/// open hunk (or before the end), and the open hunk holds the changed lines
/// since then.
pub open spec fn grouping_inv(q: Seq<(ChangeKind, Seq<char>)>) -> bool {
    let g = group_changes(q);
    let o = trimmed_lines(side_tokens(q, true));
    let n = trimmed_lines(side_tokens(q, false));
    &&& g.old_line == o.len()
    &&& g.new_line == n.len()
    &&& starts_increase(g.hunks)
    &&& forall|i: int| 0 <= i < g.hunks.len() ==> (#[trigger] g.hunks[i]).old_start + g.hunks[i].old_lines.len() <= o.len()
    &&& match g.current {
        None => {
            &&& forall|i: int| 0 <= i < g.hunks.len() ==> (#[trigger] g.hunks[i]).old_start < g.old_line
            &&& replays(o, n, g.hunks.reverse())
        },
        Some(c) => {
            &&& c.old_start + c.old_lines.len() == o.len()
            &&& c.new_start + c.new_lines.len() == n.len()
            &&& o == o.take(c.old_start as int) + c.old_lines
            &&& n == n.take(c.new_start as int) + c.new_lines
            &&& forall|i: int| 0 <= i < g.hunks.len() ==> (#[trigger] g.hunks[i]).old_start < c.old_start
            &&& replays(o.take(c.old_start as int), n.take(c.new_start as int), g.hunks.reverse())
        },
    }
}

/// Applying a hunk and then others is applying them all, the hunk first.
proof fn lemma_apply_all_cons(ls: Seq<Seq<char>>, c: HunkView, hs: Seq<HunkView>)
    ensures
        apply_all(ls, seq![c] + hs) == apply_all(apply_hunk(ls, c), hs),
        apply_ok(ls, seq![c] + hs) == (c.old_start <= ls.len() && c.old_start + c.old_lines.len()
            <= usize::MAX && apply_ok(apply_hunk(ls, c), hs)),
    decreases hs.len(),
{
    let s = seq![c] + hs;
    if hs.len() == 0 {
        assert(s.drop_last() =~= Seq::<HunkView>::empty());
        assert(s.last() == c);
        assert(apply_all(ls, s.drop_last()) == ls);
        assert(apply_ok(ls, s.drop_last()));
        assert(apply_all(apply_hunk(ls, c), hs) == apply_hunk(ls, c));
    } else {
        lemma_apply_all_cons(ls, c, hs.drop_last());
        assert(s.drop_last() =~= seq![c] + hs.drop_last());
        assert(s.last() == hs.last());
    }
}

/// Hunks that start at increasing lines are applied latest first.
proof fn lemma_sort_desc_increasing(hs: Seq<HunkView>)
    requires
        starts_increase(hs),
    ensures
        sort_desc(hs) == hs.reverse(),
    decreases hs.len(),
{
    if hs.len() > 0 {
        let d = hs.drop_last();
        assert(starts_increase(d)) by {
            assert forall|i: int, j: int| 0 <= i < j < d.len() implies (#[trigger] d[i]).old_start < (
            #[trigger] d[j]).old_start by {
                assert(d[i] == hs[i] && d[j] == hs[j]);
            }
        }
        lemma_sort_desc_increasing(d);
        let sorted = d.reverse();
        if d.len() > 0 {
            assert(sorted[0] == hs[hs.len() - 2]);
            assert(hs[hs.len() - 2].old_start < hs[hs.len() - 1].old_start);
        }
        assert(insert_pos(sorted, hs.last().old_start) == 0);
        assert(sorted.insert(0, hs.last()) =~= hs.reverse());
    }
}

/// Where `s` has no carriage return, the first line break from `i` on is
/// the first new line, as `find` gives it.
proof fn lemma_first_break_nl(s: Seq<char>, i: int)
    requires
        no_cr(s),
        0 <= i <= s.len(),
    ensures
        i <= first_break(s, i) <= s.len(),
        first_break(s, i) < s.len() ==> find_from(s, seq!['\n'], i) == Some(first_break(s, i))
            && s[first_break(s, i)] == '\n',
        first_break(s, i) == s.len() ==> find_from(s, seq!['\n'], i) is None,
        forall|j: int| i <= j < first_break(s, i) ==> #[trigger] s[j] != '\n',
    decreases s.len() - i,
{
    if i < s.len() {
        assert(occurs_at(s, seq!['\n'], i) <==> s[i] == '\n') by {
            if s[i] == '\n' {
                assert(s.subrange(i, i + 1) =~= seq!['\n']);
            }
            if occurs_at(s, seq!['\n'], i) {
                assert(s.subrange(i, i + 1)[0] == s[i]);
            }
        }
        if s[i] != '\n' {
            lemma_first_break_nl(s, i + 1);
        }
    }
}

/// `s` with its trailing new lines removed, where it ends in one new line
/// that follows none.
proof fn lemma_trim_one_nl(s: Seq<char>, k: int)
    requires
        0 <= k < s.len(),
        k == s.len() - 1,
        s[k] == '\n',
        forall|j: int| 0 <= j < k ==> #[trigger] s[j] != '\n',
    ensures
        trim_end_char(s, '\n') == s.subrange(0, k),
{
    assert(s.drop_last() =~= s.subrange(0, k));
    assert(s.last() == s[k]);
    if k > 0 {
        assert(s.drop_last().last() == s[k - 1]);
    }
    assert(trim_end_char(s.drop_last(), '\n') == s.drop_last());
}

/// Where a text has no carriage return, its lines as `similar` cuts them,
/// without their new lines, are its lines as `str::lines` gives them.
pub proof fn lemma_tokens_are_lines(s: Seq<char>)
    requires
        no_cr(s),
    ensures
        trimmed_lines(line_tokens(s)) == lines(s),
    decreases s.len(),
{
    if s.len() > 0 {
        lemma_first_break_nl(s, 0);
        let k = first_break(s, 0);
        if k == s.len() {
            assert(line_end(s) == s.len());
            assert(line_tokens(s.subrange(s.len() as int, s.len() as int)) =~= Seq::<Seq<char>>::empty()) by {
                assert(s.subrange(s.len() as int, s.len() as int).len() == 0);
            }
            assert(s.subrange(0, s.len() as int) =~= s);
            assert(trim_end_char(s, '\n') == s) by {
                assert(s.last() == s[s.len() - 1]);
            }
            assert(trimmed_lines(line_tokens(s)) =~= seq![s]);
        } else {
            assert(line_end(s) == k + 1);
            let t = s.subrange(0, k + 1);
            let rest = s.subrange(k + 1, s.len() as int);
            lemma_trim_one_nl(t, k);
            assert(t.subrange(0, k) =~= s.subrange(0, k));
            assert(no_cr(rest)) by {
                assert forall|i: int| 0 <= i < rest.len() implies #[trigger] rest[i] != '\r' by {
                    assert(rest[i] == s[k + 1 + i]);
                }
            }
            lemma_tokens_are_lines(rest);
            lemma_find_from(s, seq!['\n'], 0);
            assert(strip_last(s.subrange(0, k), '\r') == s.subrange(0, k)) by {
                if k > 0 {
                    assert(s.subrange(0, k).last() == s[k - 1]);
                }
            }
            assert(trimmed_lines(seq![t] + line_tokens(rest)) =~= seq![trim_end_char(t, '\n')]
                + trimmed_lines(line_tokens(rest)));
        }
    }
}

/// The trimmed lines of a sequence with one more at the end.
proof fn lemma_trimmed_push(ts: Seq<Seq<char>>, t: Seq<char>)
    ensures
        trimmed_lines(ts.push(t)) == trimmed_lines(ts).push(trim_end_char(t, '\n')),
{
    assert(trimmed_lines(ts.push(t)) =~= trimmed_lines(ts).push(trim_end_char(t, '\n')));
}

/// Grouping changes keeps `grouping_inv`, from no change on.
proof fn lemma_grouping(q: Seq<(ChangeKind, Seq<char>)>)
    requires
        trimmed_lines(side_tokens(q, true)).len() <= usize::MAX,
    ensures
        grouping_inv(q),
    decreases q.len(),
{
    if q.len() == 0 {
        let g = group_changes(q);
        assert(trimmed_lines(side_tokens(q, true)) =~= Seq::<Seq<char>>::empty());
        assert(trimmed_lines(side_tokens(q, false)) =~= Seq::<Seq<char>>::empty());
        assert(g.hunks.reverse() =~= Seq::<HunkView>::empty());
        assert forall|rest: Seq<Seq<char>>| #[trigger] apply_all(Seq::<Seq<char>>::empty() + rest, g.hunks.reverse())
            == Seq::<Seq<char>>::empty() + rest && apply_ok(Seq::<Seq<char>>::empty() + rest, g.hunks.reverse()) by {
            assert(Seq::<Seq<char>>::empty() + rest =~= rest);
        }
        return;
    }
    let p = q.drop_last();
    let c = q.last();
    let line = trim_end_char(c.1, '\n');
    let g0 = group_changes(p);
    let g = group_changes(q);
    let o0 = trimmed_lines(side_tokens(p, true));
    let n0 = trimmed_lines(side_tokens(p, false));
    let o = trimmed_lines(side_tokens(q, true));
    let n = trimmed_lines(side_tokens(q, false));
    lemma_trimmed_push(side_tokens(p, true), c.1);
    lemma_trimmed_push(side_tokens(p, false), c.1);
    assert(o0.len() <= o.len());
    lemma_grouping(p);
    assert(g == group_step(g0, c));
    let h0 = g0.hunks;
    match c.0 {
        ChangeKind::Equal => {
            assert(o == o0.push(line));
            assert(n == n0.push(line));
            match g0.current {
                None => {
                    assert(g.hunks == h0);
                    assert forall|rest: Seq<Seq<char>>| #[trigger] apply_all(o + rest, h0.reverse()) == n + rest
                        && apply_ok(o + rest, h0.reverse()) by {
                        let r2 = seq![line] + rest;
                        assert(o + rest =~= o0 + r2);
                        assert(n + rest =~= n0 + r2);
                        assert(apply_all(o0 + r2, h0.reverse()) == n0 + r2);
                    }
                },
                Some(c0) => {
                    let hs = h0.push(c0);
                    assert(g.hunks == hs);
                    assert(hs.reverse() =~= seq![c0] + h0.reverse());
                    let pre = o0.take(c0.old_start as int);
                    let npre = n0.take(c0.new_start as int);
                    assert forall|rest: Seq<Seq<char>>| #[trigger] apply_all(o + rest, hs.reverse()) == n + rest
                        && apply_ok(o + rest, hs.reverse()) by {
                        let ls = o + rest;
                        lemma_apply_all_cons(ls, c0, h0.reverse());
                        let r2 = c0.new_lines + (seq![line] + rest);
                        assert(ls =~= pre + c0.old_lines + (seq![line] + rest));
                        assert(apply_hunk(ls, c0) =~= pre + r2);
                        assert(apply_all(pre + r2, h0.reverse()) == npre + r2);
                        assert(npre + r2 =~= n + rest);
                    }
                    assert forall|i: int| 0 <= i < hs.len() implies (#[trigger] hs[i]).old_start < g.old_line by {
                        if i < h0.len() {
                            assert(hs[i] == h0[i]);
                        }
                    }
                    assert(starts_increase(hs)) by {
                        assert forall|i: int, j: int| 0 <= i < j < hs.len() implies (#[trigger] hs[i]).old_start < (
                        #[trigger] hs[j]).old_start by {
                            assert(hs[i] == h0[i]);
                            if j < h0.len() {
                                assert(hs[j] == h0[j]);
                            }
                        }
                    }
                    assert forall|i: int| 0 <= i < hs.len() implies (#[trigger] hs[i]).old_start + hs[i].old_lines.len() <= o.len() by {
                        if i < h0.len() {
                            assert(hs[i] == h0[i]);
                        }
                    }
                },
            }
        },
        ChangeKind::Delete => {
            assert(o == o0.push(line));
            assert(n == n0);
            assert(g.hunks == h0);
            match g0.current {
                None => {
                    let cur = g.current->Some_0;
                    assert(cur.old_lines =~= seq![line]);
                    assert(cur.new_lines =~= Seq::<Seq<char>>::empty());
                    assert(o.take(cur.old_start as int) =~= o0);
                    assert(n.take(cur.new_start as int) =~= n0);
                    assert(o =~= o0 + cur.old_lines);
                    assert(n =~= n0 + cur.new_lines);
                },
                Some(c0) => {
                    let cur = g.current->Some_0;
                    assert(cur.old_lines == c0.old_lines.push(line));
                    assert(o.take(cur.old_start as int) =~= o0.take(c0.old_start as int));
                    assert(o =~= o.take(cur.old_start as int) + cur.old_lines);
                },
            }
        },
        ChangeKind::Insert => {
            assert(o == o0);
            assert(n == n0.push(line));
            assert(g.hunks == h0);
            match g0.current {
                None => {
                    let cur = g.current->Some_0;
                    assert(cur.new_lines =~= seq![line]);
                    assert(cur.old_lines =~= Seq::<Seq<char>>::empty());
                    assert(o.take(cur.old_start as int) =~= o0);
                    assert(n.take(cur.new_start as int) =~= n0);
                    assert(o =~= o0 + cur.old_lines);
                    assert(n =~= n0 + cur.new_lines);
                },
                Some(c0) => {
                    let cur = g.current->Some_0;
                    assert(cur.new_lines == c0.new_lines.push(line));
                    assert(n.take(cur.new_start as int) =~= n0.take(c0.new_start as int));
                    assert(n =~= n.take(cur.new_start as int) + cur.new_lines);
                },
            }
        },
    }
}

/// Applying the hunks grouped from a line diff of `old` against `new` to
/// `old` gives the lines of `new`, joined by new lines, for texts without
/// carriage returns.
pub proof fn law_apply_grouped_changes(cs: Seq<(ChangeKind, Seq<char>)>, old: Seq<char>, new: Seq<char>)
    requires
        side_tokens(cs, true) == line_tokens(old),
        side_tokens(cs, false) == line_tokens(new),
        no_cr(old),
        no_cr(new),
        lines(old).len() <= usize::MAX,
    ensures
        apply_ok(lines(old), sort_desc(closed_hunks(group_changes(cs)))),
        applied(old, closed_hunks(group_changes(cs))) == join(lines(new), "\n"@),
{
    lemma_tokens_are_lines(old);
    lemma_tokens_are_lines(new);
    lemma_grouping(cs);
    let g = group_changes(cs);
    let o = lines(old);
    let n = lines(new);
    let hs = closed_hunks(g);
    match g.current {
        None => {
            lemma_sort_desc_increasing(hs);
            assert(o + Seq::<Seq<char>>::empty() =~= o);
            assert(n + Seq::<Seq<char>>::empty() =~= n);
            assert(apply_all(o + Seq::<Seq<char>>::empty(), hs.reverse()) == n + Seq::<Seq<char>>::empty());
        },
        Some(c) => {
            let h0 = g.hunks;
            assert(hs == h0.push(c));
            assert(starts_increase(hs)) by {
                assert forall|i: int, j: int| 0 <= i < j < hs.len() implies (#[trigger] hs[i]).old_start < (
                #[trigger] hs[j]).old_start by {
                    assert(hs[i] == h0[i]);
                    if j < h0.len() {
                        assert(hs[j] == h0[j]);
                    }
                }
            }
            lemma_sort_desc_increasing(hs);
            assert(hs.reverse() =~= seq![c] + h0.reverse());
            lemma_apply_all_cons(o, c, h0.reverse());
            let pre = o.take(c.old_start as int);
            let npre = n.take(c.new_start as int);
            assert(apply_hunk(o, c) =~= pre + c.new_lines);
            assert(apply_all(pre + c.new_lines, h0.reverse()) == npre + c.new_lines);
        },
    }
}

} // verus!
