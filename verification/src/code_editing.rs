//! Inline code editing: line-by-line diffs of a file against its edited
//! form, in the simple form shown to the user and in hunks.

use vstd::prelude::*;

use crate::text::{
    append_str, chars_of, contains, lemma_contains_at, lines, lines_exec, occurs_at, same_chars,
    string_of_all,
};

verus! {

broadcast use vstd::string::group_string_axioms;

/// Where an edit stands.
#[derive(Debug, Clone, Copy, PartialEq, Eq, Structural)]
pub enum EditStatus {
    Pending,
    Applied,
    Rejected,
}

/// An edit of one file proposed by the model.
#[derive(Debug)]
pub struct CodeEdit {
    pub id: String,
    pub file_path: String,
    pub original_content: String,
    pub modified_content: String,
    pub diff: String,
    pub description: String,
    pub status: EditStatus,
    pub created_at: u64,
}

/// A multi-file editing session.
#[derive(Debug)]
pub struct ComposerSession {
    pub id: String,
    pub edits: Vec<CodeEdit>,
    pub prompt: String,
    pub context_files: Vec<String>,
    pub status: String,
    pub created_at: u64,
}

/// One line of a hunk: `"add"`, `"delete"` or `"context"`.
#[derive(Debug)]
pub struct LineChange {
    pub change_type: String,
    pub old_line_number: Option<usize>,
    pub new_line_number: Option<usize>,
    pub content: String,
}

/// A run of up to about fifty line changes.
#[derive(Debug)]
pub struct DiffHunk {
    pub old_start: usize,
    pub old_lines: usize,
    pub new_start: usize,
    pub new_lines: usize,
    pub changes: Vec<LineChange>,
}

/// How many lines a diff adds and deletes.
#[derive(Debug)]
pub struct DiffStats {
    pub additions: usize,
    pub deletions: usize,
    pub changes: usize,
}

/// The diff of one file.
#[derive(Debug)]
pub struct FileDiff {
    pub file_path: String,
    pub hunks: Vec<DiffHunk>,
    pub stats: DiffStats,
}

/// A new content for a file.
#[derive(Debug)]
pub struct FileChange {
    pub path: String,
    pub original_content: String,
    pub modified_content: String,
}

/// What writing a set of file changes gave.
#[derive(Debug)]
pub struct ApplyResult {
    pub success: bool,
    pub files_modified: Vec<String>,
    pub errors: Vec<String>,
}

// ---------------------------------------------------------------------------
// The simple line diff
// ---------------------------------------------------------------------------

/// Line `i` of `ls`, where there is one.
pub open spec fn line_at(ls: Seq<Seq<char>>, i: int) -> Option<Seq<char>> {
    if 0 <= i < ls.len() {
        Some(ls[i])
    } else {
        None
    }
}

/// What line `i` contributes to the simple diff: both lines where they
/// differ, the one that exists where only one does.
pub open spec fn simple_diff_line(o: Option<Seq<char>>, m: Option<Seq<char>>) -> Seq<char> {
    match (o, m) {
        (Some(a), Some(b)) => if a != b {
            "-"@ + a + "\n+"@ + b + "\n"@
        } else {
            Seq::empty()
        },
        (Some(a), None) => "-"@ + a + "\n"@,
        (None, Some(b)) => "+"@ + b + "\n"@,
        (None, None) => Seq::empty(),
    }
}

/// The simple diff of the first `n` line positions.
pub open spec fn simple_diff_upto(a: Seq<Seq<char>>, b: Seq<Seq<char>>, n: int) -> Seq<char>
    decreases n,
{
    if n <= 0 {
        Seq::empty()
    } else {
        simple_diff_upto(a, b, n - 1) + simple_diff_line(line_at(a, n - 1), line_at(b, n - 1))
    }
}

/// The simple line-by-line diff of two texts: line `i` of each compared
/// with line `i` of the other.
pub open spec fn simple_diff(original: Seq<char>, modified: Seq<char>) -> Seq<char> {
    let a = lines(original);
    let b = lines(modified);
    simple_diff_upto(a, b, if a.len() >= b.len() { a.len() as int } else { b.len() as int })
}

/// The simple line-by-line diff of two texts.
pub fn generate_diff(original: &str, modified: &str) -> (r: String)
    ensures
        r@ == simple_diff(original@, modified@),
{
    let a = lines_exec(&chars_of(original));
    let b = lines_exec(&chars_of(modified));
    let max_lines = if a.len() >= b.len() { a.len() } else { b.len() };
    let mut diff = String::new();
    let mut i: usize = 0;
    while i < max_lines
        invariant
            i <= max_lines,
            max_lines == (if a.len() >= b.len() { a.len() } else { b.len() }),
            a.deep_view() == lines(original@),
            b.deep_view() == lines(modified@),
            diff@ == simple_diff_upto(a.deep_view(), b.deep_view(), i as int),
        decreases max_lines - i,
    {
        let ghost prev = diff@;
        if i < a.len() && i < b.len() {
            assert(a.deep_view()[i as int] =~= a@[i as int]@);
            assert(b.deep_view()[i as int] =~= b@[i as int]@);
            if !same_chars(&a[i], &b[i]) {
                append_str(&mut diff, "-");
                append_vec(&mut diff, &a[i]);
                append_str(&mut diff, "\n+");
                append_vec(&mut diff, &b[i]);
                append_str(&mut diff, "\n");
            }
        } else if i < a.len() {
            assert(a.deep_view()[i as int] =~= a@[i as int]@);
            append_str(&mut diff, "-");
            append_vec(&mut diff, &a[i]);
            append_str(&mut diff, "\n");
        } else {
            assert(b.deep_view()[i as int] =~= b@[i as int]@);
            append_str(&mut diff, "+");
            append_vec(&mut diff, &b[i]);
            append_str(&mut diff, "\n");
        }
        assert(diff@ =~= prev + simple_diff_line(
            line_at(a.deep_view(), i as int),
            line_at(b.deep_view(), i as int),
        ));
        i += 1;
    }
    diff
}

/// Appends all of `v` to `out`.
fn append_vec(out: &mut String, v: &Vec<char>)
    ensures
        final(out)@ == old(out)@ + v@,
{
    crate::text::append_range(out, v, 0, v.len());
    assert(v@.subrange(0, v@.len() as int) =~= v@);
}

// ---------------------------------------------------------------------------
// Prompts and edits
// ---------------------------------------------------------------------------

/// The prompt that asks the model to edit `selection` of a file by
/// `instruction`; `file_name` is the file's name as the caller shows it.
pub open spec fn edit_prompt_text(
    file_name: Seq<char>,
    original: Seq<char>,
    selection: Seq<char>,
    instruction: Seq<char>,
) -> Seq<char> {
    "You are an expert code editor. Edit the following code according to the instruction.\n\nFILE: "@
        + file_name + "\n\nCURRENT CODE:\n```\n"@ + original + "\n```\n\nSELECTED CODE:\n```\n"@
        + selection + "\n```\n\nINSTRUCTION: "@ + instruction
        + "\n\nRespond ONLY with the modified code. Do not include explanations or markdown formatting."@
}

/// Builds the prompt for an inline edit.
pub fn edit_prompt(file_name: &str, original: &str, selection: &str, instruction: &str) -> (r: String)
    ensures
        r@ == edit_prompt_text(file_name@, original@, selection@, instruction@),
{
    let mut r =
        "You are an expert code editor. Edit the following code according to the instruction.\n\nFILE: ".to_owned();
    append_str(&mut r, file_name);
    append_str(&mut r, "\n\nCURRENT CODE:\n```\n");
    append_str(&mut r, original);
    append_str(&mut r, "\n```\n\nSELECTED CODE:\n```\n");
    append_str(&mut r, selection);
    append_str(&mut r, "\n```\n\nINSTRUCTION: ");
    append_str(&mut r, instruction);
    append_str(
        &mut r,
        "\n\nRespond ONLY with the modified code. Do not include explanations or markdown formatting.",
    );
    r
}

/// How one context file is shown to the model; `file_name` is the file's
/// name as the caller shows it.
pub open spec fn context_block_text(file_name: Seq<char>, content: Seq<char>) -> Seq<char> {
    "\n\nFILE: "@ + file_name + "\n```\n"@ + content + "\n```\n"@
}

/// Shows one context file to the model.
pub fn context_block(file_name: &str, content: &str) -> (r: String)
    ensures
        r@ == context_block_text(file_name@, content@),
{
    let mut r = "\n\nFILE: ".to_owned();
    append_str(&mut r, file_name);
    append_str(&mut r, "\n```\n");
    append_str(&mut r, content);
    append_str(&mut r, "\n```\n");
    r
}

/// The prompt of a composer session: the context files, then the request.
pub open spec fn composer_prompt_text(context: Seq<char>, request: Seq<char>) -> Seq<char> {
    "You are an expert software engineer. Analyze the following code and implement the requested changes across multiple files.\n\nCONTEXT FILES:\n"@
        + context + "\n\nREQUEST: "@ + request + COMPOSER_TAIL@
}

/// The part of the composer prompt after the request.
pub const COMPOSER_TAIL: &'static str = "

For each file that needs changes, provide:
1. File path
2. Complete modified content
3. Brief explanation of changes

Format your response as JSON:
[
  {
    \"file_path\": \"path/to/file\",
    \"content\": \"complete file content after changes\",
    \"explanation\": \"what was changed and why\"
  }
]";

/// Builds the prompt of a composer session.
pub fn composer_prompt(context: &str, request: &str) -> (r: String)
    ensures
        r@ == composer_prompt_text(context@, request@),
{
    let mut r =
        "You are an expert software engineer. Analyze the following code and implement the requested changes across multiple files.\n\nCONTEXT FILES:\n".to_owned();
    append_str(&mut r, context);
    append_str(&mut r, "\n\nREQUEST: ");
    append_str(&mut r, request);
    append_str(&mut r, COMPOSER_TAIL);
    r
}

/// The file and the new content of one change a model proposed: a change
/// without a file path is refused with `"Missing file_path"`, then one
/// without content with `"Missing content"`.
pub fn proposed_change(file_path: Option<String>, content: Option<String>) -> (r: Result<
    (String, String),
    String,
>)
    ensures
        file_path is None ==> (r matches Err(e) && e@ == "Missing file_path"@),
        file_path is Some && content is None ==> (r matches Err(e) && e@ == "Missing content"@),
        file_path is Some && content is Some ==> (r matches Ok(v) && v.0 == file_path->0 && v.1
            == content->0),
{
    let path = match file_path {
        Some(p) => p,
        None => return Err("Missing file_path".to_owned()),
    };
    let content = match content {
        Some(c) => c,
        None => return Err("Missing content".to_owned()),
    };
    Ok((path, content))
}

/// A new pending edit of a file: its simple diff is computed from the two
/// contents; the description defaults to `No explanation provided`.
pub fn new_edit(
    id: String,
    file_path: String,
    original_content: String,
    modified_content: String,
    description: Option<String>,
    created_at: u64,
) -> (r: CodeEdit)
    ensures
        r.id == id,
        r.file_path == file_path,
        r.original_content == original_content,
        r.modified_content == modified_content,
        r.diff@ == simple_diff(original_content@, modified_content@),
        r.description@ == (match description {
            Some(d) => d@,
            None => "No explanation provided"@,
        }),
        r.status == EditStatus::Pending,
        r.created_at == created_at,
{
    let diff = generate_diff(original_content.as_str(), modified_content.as_str());
    let description = match description {
        Some(d) => d,
        None => "No explanation provided".to_owned(),
    };
    CodeEdit {
        id,
        file_path,
        original_content,
        modified_content,
        diff,
        description,
        status: EditStatus::Pending,
        created_at,
    }
}

/// A new composer session, pending.
pub fn new_session(
    id: String,
    edits: Vec<CodeEdit>,
    prompt: String,
    context_files: Vec<String>,
    created_at: u64,
) -> (r: ComposerSession)
    ensures
        r.id == id,
        r.edits == edits,
        r.prompt == prompt,
        r.context_files == context_files,
        r.status@ == "pending"@,
        r.created_at == created_at,
{
    ComposerSession { id, edits, prompt, context_files, status: "pending".to_owned(), created_at }
}

/// Diffing a text against itself gives nothing.
pub proof fn law_simple_diff_same(text: Seq<char>)
    ensures
        simple_diff(text, text) == Seq::<char>::empty(),
{
    let a = lines(text);
    lemma_simple_diff_upto_same(a, a.len() as int);
}

/// The simple diff up to `n` begins with the simple diff up to any
/// earlier position `m`.
proof fn lemma_simple_diff_upto_prefix(a: Seq<Seq<char>>, b: Seq<Seq<char>>, m: int, n: int)
    requires
        0 <= m <= n,
    ensures
        simple_diff_upto(a, b, m).len() <= simple_diff_upto(a, b, n).len(),
        simple_diff_upto(a, b, n).subrange(0, simple_diff_upto(a, b, m).len() as int)
            == simple_diff_upto(a, b, m),
    decreases n - m,
{
    if m < n {
        lemma_simple_diff_upto_prefix(a, b, m, n - 1);
        let p = simple_diff_upto(a, b, n - 1);
        let q = simple_diff_upto(a, b, m);
        assert((p + simple_diff_line(line_at(a, n - 1), line_at(b, n - 1))).subrange(0, q.len() as int)
            =~= p.subrange(0, q.len() as int));
    } else {
        assert(simple_diff_upto(a, b, n).subrange(0, simple_diff_upto(a, b, n).len() as int)
            =~= simple_diff_upto(a, b, n));
    }
}

/// Every line position's part of the simple diff stands in it.
proof fn lemma_simple_diff_has_line(original: Seq<char>, modified: Seq<char>, i: int)
    requires
        0 <= i,
        i < lines(original).len() || i < lines(modified).len(),
    ensures
        ({
            let part = simple_diff_line(line_at(lines(original), i), line_at(lines(modified), i));
            occurs_at(simple_diff(original, modified), part, simple_diff_upto(
                lines(original),
                lines(modified),
                i,
            ).len() as int)
        }),
{
    let a = lines(original);
    let b = lines(modified);
    let n = if a.len() >= b.len() { a.len() as int } else { b.len() as int };
    lemma_simple_diff_upto_prefix(a, b, i + 1, n);
    let whole = simple_diff_upto(a, b, n);
    let before = simple_diff_upto(a, b, i);
    let part = simple_diff_line(line_at(a, i), line_at(b, i));
    let upto = simple_diff_upto(a, b, i + 1);
    assert(upto == before + part);
    assert(whole.subrange(before.len() as int, (before.len() + part.len()) as int) =~= part) by {
        assert forall|k: int| 0 <= k < part.len() implies whole.subrange(
            before.len() as int,
            (before.len() + part.len()) as int,
        )[k] == part[k] by {
            assert(whole[before.len() + k] == whole.subrange(0, upto.len() as int)[before.len() + k]);
            assert(upto[before.len() + k] == part[k]);
        }
    }
}

/// The simple diff shows every changed line: where line `i` of both texts
/// differs, it holds `"-<old line>\n+<new line>\n"`; where only the
/// original has a line `i`, `"-<line>\n"`; where only the modified text
/// has one, `"+<line>\n"`. So the diff of two texts whose lines differ
/// somewhere is not empty.
pub proof fn law_simple_diff_shows_changes(original: Seq<char>, modified: Seq<char>, i: int)
    requires
        0 <= i,
    ensures
        i < lines(original).len() && i < lines(modified).len() && lines(original)[i] != lines(
            modified,
        )[i] ==> contains(
            simple_diff(original, modified),
            "-"@ + lines(original)[i] + "\n+"@ + lines(modified)[i] + "\n"@,
        ),
        i < lines(original).len() && i >= lines(modified).len() ==> contains(
            simple_diff(original, modified),
            "-"@ + lines(original)[i] + "\n"@,
        ),
        i >= lines(original).len() && i < lines(modified).len() ==> contains(
            simple_diff(original, modified),
            "+"@ + lines(modified)[i] + "\n"@,
        ),
        i < lines(original).len() && i < lines(modified).len() && lines(original)[i] != lines(
            modified,
        )[i] ==> simple_diff(original, modified).len() > 0,
{
    if i < lines(original).len() || i < lines(modified).len() {
        lemma_simple_diff_has_line(original, modified, i);
        let part = simple_diff_line(line_at(lines(original), i), line_at(lines(modified), i));
        let k = simple_diff_upto(lines(original), lines(modified), i).len() as int;
        lemma_contains_at(simple_diff(original, modified), part, k);
        if i < lines(original).len() && i < lines(modified).len() && lines(original)[i] != lines(
            modified,
        )[i] {
            reveal_strlit("-");
            assert(part.len() > 0);
        }
    }
}

/// The simple diff of equal line lists is empty up to any position.
proof fn lemma_simple_diff_upto_same(a: Seq<Seq<char>>, n: int)
    ensures
        simple_diff_upto(a, a, n) == Seq::<char>::empty(),
    decreases n,
{
    if n > 0 {
        lemma_simple_diff_upto_same(a, n - 1);
        assert(simple_diff_upto(a, a, n - 1) + Seq::<char>::empty() =~= Seq::<char>::empty());
    }
}

// ---------------------------------------------------------------------------
// Edits and sessions kept by id
// ---------------------------------------------------------------------------

/// The first position of `id` in `ids`.
pub open spec fn first_index(ids: Seq<Seq<char>>, id: Seq<char>) -> Option<int>
    decreases ids.len(),
{
    if ids.len() == 0 {
        None
    } else if ids[0] == id {
        Some(0)
    } else {
        match first_index(ids.drop_first(), id) {
            Some(k) => Some(k + 1),
            None => None,
        }
    }
}

/// Where `id` first occurs at `k`, `first_index` finds `k`; where it does
/// not occur, nothing.
proof fn lemma_first_index(ids: Seq<Seq<char>>, id: Seq<char>, k: int)
    requires
        0 <= k <= ids.len(),
        forall|j: int| 0 <= j < k ==> ids[j] != id,
        k < ids.len() ==> ids[k] == id,
    ensures
        first_index(ids, id) == (if k < ids.len() { Some(k) } else { None::<int> }),
    decreases k,
{
    if k > 0 {
        assert forall|j: int| 0 <= j < k - 1 implies ids.drop_first()[j] != id by {
            assert(ids.drop_first()[j] == ids[j + 1]);
        }
        if k < ids.len() {
            assert(ids.drop_first()[k - 1] == ids[k]);
        }
        lemma_first_index(ids.drop_first(), id, k - 1);
    } else if ids.len() == 0 {
    }
}

/// The ids of the edits of `s`.
pub open spec fn edit_ids(s: Seq<CodeEdit>) -> Seq<Seq<char>> {
    s.map_values(|e: CodeEdit| e.id@)
}

/// The ids of the sessions of `s`.
pub open spec fn session_ids(s: Seq<ComposerSession>) -> Seq<Seq<char>> {
    s.map_values(|c: ComposerSession| c.id@)
}

/// A copy of an edit.
fn copy_edit(e: &CodeEdit) -> (r: CodeEdit)
    ensures
        r == *e,
{
    CodeEdit {
        id: e.id.clone(),
        file_path: e.file_path.clone(),
        original_content: e.original_content.clone(),
        modified_content: e.modified_content.clone(),
        diff: e.diff.clone(),
        description: e.description.clone(),
        status: e.status,
        created_at: e.created_at,
    }
}

/// Copies of the edits of `v`.
fn copy_edits(v: &Vec<CodeEdit>) -> (r: Vec<CodeEdit>)
    ensures
        r@ == v@,
{
    let mut r: Vec<CodeEdit> = Vec::new();
    let mut i: usize = 0;
    while i < v.len()
        invariant
            i <= v.len(),
            r@ == v@.take(i as int),
        decreases v.len() - i,
    {
        r.push(copy_edit(&v[i]));
        assert(r@ =~= v@.take(i + 1));
        i += 1;
    }
    assert(v@.take(v.len() as int) =~= v@);
    r
}

/// Copies of the strings of `v`.
fn copy_string_list(v: &Vec<String>) -> (r: Vec<String>)
    ensures
        r@ == v@,
{
    let mut r: Vec<String> = Vec::new();
    let mut i: usize = 0;
    while i < v.len()
        invariant
            i <= v.len(),
            r@ == v@.take(i as int),
        decreases v.len() - i,
    {
        r.push(v[i].clone());
        assert(r@ =~= v@.take(i + 1));
        i += 1;
    }
    assert(v@.take(v.len() as int) =~= v@);
    r
}

/// The proposed edits and the composer sessions, each kept by id.
pub struct CodeEditingState {
    pub edits: Vec<CodeEdit>,
    pub composer_sessions: Vec<ComposerSession>,
}

impl CodeEditingState {
    /// No edits and no sessions.
    pub fn new() -> (r: CodeEditingState)
        ensures
            r.edits@ == Seq::<CodeEdit>::empty(),
            r.composer_sessions@ == Seq::<ComposerSession>::empty(),
    {
        CodeEditingState { edits: Vec::new(), composer_sessions: Vec::new() }
    }

    /// The position of the edit with id `id`.
    fn edit_position(&self, id: &String) -> (r: Option<usize>)
        ensures
            r matches Some(k) ==> k < self.edits.len() && first_index(edit_ids(self.edits@), id@)
                == Some(k as int),
            r is None ==> first_index(edit_ids(self.edits@), id@) is None,
    {
        let ghost ids = edit_ids(self.edits@);
        let mut k: usize = 0;
        while k < self.edits.len()
            invariant
                k <= self.edits.len(),
                ids == edit_ids(self.edits@),
                forall|j: int| 0 <= j < k ==> ids[j] != id@,
            decreases self.edits.len() - k,
        {
            if self.edits[k].id == *id {
                proof {
                    lemma_first_index(ids, id@, k as int);
                }
                return Some(k);
            }
            k += 1;
        }
        proof {
            lemma_first_index(ids, id@, k as int);
        }
        None
    }

    /// The position of the session with id `id`.
    fn session_position(&self, id: &String) -> (r: Option<usize>)
        ensures
            r matches Some(k) ==> k < self.composer_sessions.len() && first_index(
                session_ids(self.composer_sessions@),
                id@,
            ) == Some(k as int),
            r is None ==> first_index(session_ids(self.composer_sessions@), id@) is None,
    {
        let ghost ids = session_ids(self.composer_sessions@);
        let mut k: usize = 0;
        while k < self.composer_sessions.len()
            invariant
                k <= self.composer_sessions.len(),
                ids == session_ids(self.composer_sessions@),
                forall|j: int| 0 <= j < k ==> ids[j] != id@,
            decreases self.composer_sessions.len() - k,
        {
            if self.composer_sessions[k].id == *id {
                proof {
                    lemma_first_index(ids, id@, k as int);
                }
                return Some(k);
            }
            k += 1;
        }
        proof {
            lemma_first_index(ids, id@, k as int);
        }
        None
    }

    /// Stores an edit under its id, in place of the one stored there.
    pub fn insert_edit(&mut self, edit: CodeEdit)
        ensures
            final(self).composer_sessions == old(self).composer_sessions,
            final(self).edits@ == match first_index(edit_ids(old(self).edits@), edit.id@) {
                Some(k) => old(self).edits@.update(k, edit),
                None => old(self).edits@.push(edit),
            },
    {
        match self.edit_position(&edit.id) {
            Some(k) => {
                self.edits.set(k, edit);
            },
            None => {
                self.edits.push(edit);
            },
        }
    }

    /// The file and the content that applying the edit with id `id` writes.
    pub fn edit_to_apply(&self, id: &String) -> (r: Result<(String, String), String>)
        ensures
            match first_index(edit_ids(self.edits@), id@) {
                Some(k) => r matches Ok(p) && p.0@ == self.edits@[k].file_path@ && p.1@
                    == self.edits@[k].modified_content@,
                None => r matches Err(e) && e@ == "Edit not found"@,
            },
    {
        match self.edit_position(id) {
            Some(k) => Ok((self.edits[k].file_path.clone(), self.edits[k].modified_content.clone())),
            None => Err("Edit not found".to_owned()),
        }
    }

    /// Marks the edit with id `id` applied or rejected; an error where
    /// there is none.
    pub fn set_edit_status(&mut self, id: &String, status: EditStatus) -> (r: Result<(), String>)
        ensures
            final(self).composer_sessions == old(self).composer_sessions,
            match first_index(edit_ids(old(self).edits@), id@) {
                Some(k) => r is Ok && final(self).edits@ == old(self).edits@.update(
                    k,
                    CodeEdit { status, ..old(self).edits@[k] },
                ),
                None => r matches Err(e) && e@ == "Edit not found"@ && final(self).edits
                    == old(self).edits,
            },
    {
        match self.edit_position(id) {
            Some(k) => {
                let mut e = copy_edit(&self.edits[k]);
                e.status = status;
                self.edits.set(k, e);
                Ok(())
            },
            None => Err("Edit not found".to_owned()),
        }
    }

    /// Copies of the edits still pending, in order.
    pub fn pending_edits(&self) -> (r: Vec<CodeEdit>)
        ensures
            r@ == self.edits@.filter(|e: CodeEdit| e.status == EditStatus::Pending),
    {
        let mut r: Vec<CodeEdit> = Vec::new();
        let mut i: usize = 0;
        while i < self.edits.len()
            invariant
                i <= self.edits.len(),
                r@ == self.edits@.take(i as int).filter(|e: CodeEdit| e.status == EditStatus::Pending),
            decreases self.edits.len() - i,
        {
            proof {
                reveal(Seq::filter);
                assert(self.edits@.take(i + 1).drop_last() =~= self.edits@.take(i as int));
            }
            if self.edits[i].status == EditStatus::Pending {
                r.push(copy_edit(&self.edits[i]));
            }
            i += 1;
        }
        assert(self.edits@.take(self.edits.len() as int) =~= self.edits@);
        r
    }

    /// Stores a session under its id, in place of the one stored there.
    pub fn insert_session(&mut self, session: ComposerSession)
        ensures
            final(self).edits == old(self).edits,
            final(self).composer_sessions@ == match first_index(
                session_ids(old(self).composer_sessions@),
                session.id@,
            ) {
                Some(k) => old(self).composer_sessions@.update(k, session),
                None => old(self).composer_sessions@.push(session),
            },
    {
        match self.session_position(&session.id) {
            Some(k) => {
                self.composer_sessions.set(k, session);
            },
            None => {
                self.composer_sessions.push(session);
            },
        }
    }

    /// Records how far applying the session with id `id` got: its first
    /// `written` edits were written and are applied; once all of them are,
    /// so is the session. An error where there is no such session.
    pub fn mark_session_applied(&mut self, id: &String, written: usize) -> (r: Result<(), String>)
        ensures
            final(self).edits == old(self).edits,
            match first_index(session_ids(old(self).composer_sessions@), id@) {
                None => r matches Err(e) && e@ == "Session not found"@ && final(self).composer_sessions
                    == old(self).composer_sessions,
                Some(k) => r is Ok
                    && final(self).composer_sessions@.len() == old(self).composer_sessions@.len()
                    && (forall|j: int| 0 <= j < old(self).composer_sessions@.len() && j != k
                    ==> final(self).composer_sessions@[j] == old(self).composer_sessions@[j]) && {
                    let before = old(self).composer_sessions@[k];
                    let after = final(self).composer_sessions@[k];
                    &&& after.id == before.id
                    &&& after.prompt == before.prompt
                    &&& after.context_files@ == before.context_files@
                    &&& after.created_at == before.created_at
                    &&& after.edits@.len() == before.edits@.len()
                    &&& forall|j: int|
                        0 <= j < before.edits@.len() ==> #[trigger] after.edits@[j] == (if j < written {
                            CodeEdit { status: EditStatus::Applied, ..before.edits@[j] }
                        } else {
                            before.edits@[j]
                        })
                    &&& after.status@ == (if written >= before.edits@.len() {
                        "applied"@
                    } else {
                        before.status@
                    })
                },
            },
    {
        let k = match self.session_position(id) {
            Some(k) => k,
            None => {
                return Err("Session not found".to_owned());
            },
        };
        let ghost before = self.composer_sessions@[k as int];
        let ghost others = self.composer_sessions@;
        let old_session = &self.composer_sessions[k];
        let mut edits = copy_edits(&old_session.edits);
        let n = edits.len();
        let mut i: usize = 0;
        while i < n && i < written
            invariant
                n == edits@.len() == before.edits@.len(),
                i <= n,
                i <= written,
                forall|j: int|
                    0 <= j < n ==> #[trigger] edits@[j] == (if j < i {
                        CodeEdit { status: EditStatus::Applied, ..before.edits@[j] }
                    } else {
                        before.edits@[j]
                    }),
            decreases n - i,
        {
            let mut e = copy_edit(&edits[i]);
            e.status = EditStatus::Applied;
            edits.set(i, e);
            i += 1;
        }
        let status = if written >= n {
            "applied".to_owned()
        } else {
            old_session.status.clone()
        };
        let session = ComposerSession {
            id: old_session.id.clone(),
            edits,
            prompt: old_session.prompt.clone(),
            context_files: copy_string_list(&old_session.context_files),
            status,
            created_at: old_session.created_at,
        };
        self.composer_sessions.set(k, session);
        proof {
            assert forall|j: int| 0 <= j < others.len() && j != k implies self.composer_sessions@[j]
                == others[j] by {}
        }
        Ok(())
    }

    /// A copy of the session with id `id`; an error naming it where there
    /// is none.
    pub fn get_session(&self, id: &String) -> (r: Result<ComposerSession, String>)
        ensures
            match first_index(session_ids(self.composer_sessions@), id@) {
                Some(k) => r matches Ok(c) && {
                    let s = self.composer_sessions@[k];
                    &&& c.id == s.id
                    &&& c.edits@ == s.edits@
                    &&& c.prompt == s.prompt
                    &&& c.context_files@ == s.context_files@
                    &&& c.status == s.status
                    &&& c.created_at == s.created_at
                },
                None => r matches Err(e) && e@ == "Session not found: "@ + id@,
            },
    {
        match self.session_position(id) {
            Some(k) => {
                let s = &self.composer_sessions[k];
                Ok(
                    ComposerSession {
                        id: s.id.clone(),
                        edits: copy_edits(&s.edits),
                        prompt: s.prompt.clone(),
                        context_files: copy_string_list(&s.context_files),
                        status: s.status.clone(),
                        created_at: s.created_at,
                    },
                )
            },
            None => {
                let mut e = "Session not found: ".to_owned();
                append_str(&mut e, id.as_str());
                Err(e)
            },
        }
    }
}

// ---------------------------------------------------------------------------
// The hunked diff
// ---------------------------------------------------------------------------

/// A line change as values.
pub struct ChangeView {
    pub change_type: Seq<char>,
    pub old_line_number: Option<usize>,
    pub new_line_number: Option<usize>,
    pub content: Seq<char>,
}

/// A hunk as values.
pub struct FileHunkView {
    pub old_start: int,
    pub old_lines: int,
    pub new_start: int,
    pub new_lines: int,
    pub changes: Seq<ChangeView>,
}

impl View for LineChange {
    type V = ChangeView;

    open spec fn view(&self) -> ChangeView {
        ChangeView {
            change_type: self.change_type@,
            old_line_number: self.old_line_number,
            new_line_number: self.new_line_number,
            content: self.content@,
        }
    }
}

impl View for DiffHunk {
    type V = FileHunkView;

    open spec fn view(&self) -> FileHunkView {
        FileHunkView {
            old_start: self.old_start as int,
            old_lines: self.old_lines as int,
            new_start: self.new_start as int,
            new_lines: self.new_lines as int,
            changes: self.changes@.map_values(|c: LineChange| c@),
        }
    }
}

/// An added line, new line `j` (counted from 0).
pub open spec fn add_change(j: int, content: Seq<char>) -> ChangeView {
    ChangeView { change_type: "add"@, old_line_number: None, new_line_number: Some((j + 1) as usize), content }
}

/// A deleted line, old line `i` (counted from 0).
pub open spec fn delete_change(i: int, content: Seq<char>) -> ChangeView {
    ChangeView { change_type: "delete"@, old_line_number: Some((i + 1) as usize), new_line_number: None, content }
}

/// An unchanged line, old line `i` and new line `j` (counted from 0).
pub open spec fn context_change(i: int, j: int, content: Seq<char>) -> ChangeView {
    ChangeView {
        change_type: "context"@,
        old_line_number: Some((i + 1) as usize),
        new_line_number: Some((j + 1) as usize),
        content,
    }
}

/// The changes of one step of the diff at old line `i` and new line `j`.
/// Lines are compared in place: an equal pair is context, an unequal pair a
/// deletion and an addition, and the longer text's rest is all deletions or
/// all additions.
pub open spec fn step_changes(a: Seq<Seq<char>>, b: Seq<Seq<char>>, i: int, j: int) -> Seq<ChangeView> {
    if i >= a.len() {
        seq![add_change(j, b[j])]
    } else if j >= b.len() {
        seq![delete_change(i, a[i])]
    } else if a[i] == b[j] {
        seq![context_change(i, j, a[i])]
    } else {
        seq![delete_change(i, a[i]), add_change(j, b[j])]
    }
}

/// The old line after one step.
pub open spec fn step_i(a: Seq<Seq<char>>, i: int) -> int {
    if i >= a.len() { i } else { i + 1 }
}

/// The new line after one step.
pub open spec fn step_j(a: Seq<Seq<char>>, b: Seq<Seq<char>>, i: int, j: int) -> int {
    if i >= a.len() || j < b.len() { j + 1 } else { j }
}

/// The diff is not done at lines `i` and `j`, which lie within the texts.
pub open spec fn diff_open(a: Seq<Seq<char>>, b: Seq<Seq<char>>, i: int, j: int) -> bool {
    0 <= i <= a.len() && 0 <= j <= b.len() && (i < a.len() || j < b.len())
}

/// The hunk that covers old lines from `hi` and new lines from `hj` up to
/// `i` and `j`.
pub open spec fn make_hunk(hi: int, hj: int, i: int, j: int, cs: Seq<ChangeView>) -> FileHunkView {
    FileHunkView { old_start: hi + 1, old_lines: i - hi, new_start: hj + 1, new_lines: j - hj, changes: cs }
}

/// The hunks of the diff from lines `i` and `j` on, where the open hunk
/// started at `hi` and `hj` and holds `cur`: a hunk closes once it holds
/// more than fifty changes, or at the end.
pub open spec fn diff_hunks_from(
    a: Seq<Seq<char>>,
    b: Seq<Seq<char>>,
    i: int,
    j: int,
    hi: int,
    hj: int,
    cur: Seq<ChangeView>,
) -> Seq<FileHunkView>
    decreases a.len() + b.len() - i - j,
{
    if !diff_open(a, b, i, j) {
        Seq::empty()
    } else {
        let i2 = step_i(a, i);
        let j2 = step_j(a, b, i, j);
        let cur2 = cur + step_changes(a, b, i, j);
        if cur2.len() > 50 || (i2 >= a.len() && j2 >= b.len()) {
            seq![make_hunk(hi, hj, i2, j2, cur2)] + diff_hunks_from(a, b, i2, j2, i2, j2, Seq::empty())
        } else {
            diff_hunks_from(a, b, i2, j2, hi, hj, cur2)
        }
    }
}

/// How many additions (`want_adds`) or deletions the diff makes from lines
/// `i` and `j` on.
pub open spec fn diff_count_from(a: Seq<Seq<char>>, b: Seq<Seq<char>>, i: int, j: int, want_adds: bool) -> nat
    decreases a.len() + b.len() - i - j,
{
    if !diff_open(a, b, i, j) {
        0
    } else {
        let i2 = step_i(a, i);
        let j2 = step_j(a, b, i, j);
        let here: nat = if i >= a.len() {
            if want_adds { 1 } else { 0 }
        } else if j >= b.len() {
            if want_adds { 0 } else { 1 }
        } else if a[i] == b[j] {
            0
        } else {
            1
        };
        here + diff_count_from(a, b, i2, j2, want_adds)
    }
}

/// The hunks of the diff of two texts; a single empty hunk where both are
/// empty.
pub open spec fn file_diff_hunks(original: Seq<char>, modified: Seq<char>) -> Seq<FileHunkView> {
    let a = lines(original);
    let b = lines(modified);
    if a.len() == 0 && b.len() == 0 {
        seq![FileHunkView { old_start: 1, old_lines: 0, new_start: 1, new_lines: 0, changes: Seq::empty() }]
    } else {
        diff_hunks_from(a, b, 0, 0, 0, 0, Seq::empty())
    }
}

/// A hunked line diff of two texts, with its counts of added and deleted
/// lines.
pub fn get_file_diff(file_path: String, original: String, modified: String) -> (r: Result<FileDiff, String>)
    requires
        lines(original@).len() + lines(modified@).len() < usize::MAX,
    ensures
        r matches Ok(d) && {
            &&& d.file_path@ == file_path@
            &&& d.hunks@.map_values(|h: DiffHunk| h@) == file_diff_hunks(original@, modified@)
            &&& d.stats.additions == diff_count_from(lines(original@), lines(modified@), 0, 0, true)
            &&& d.stats.deletions == diff_count_from(lines(original@), lines(modified@), 0, 0, false)
            &&& d.stats.changes == d.stats.additions + d.stats.deletions
            &&& hunks_old_side(d.hunks@.map_values(|h: DiffHunk| h@)) == lines(original@)
            &&& hunks_new_side(d.hunks@.map_values(|h: DiffHunk| h@)) == lines(modified@)
        },
{
    let a = lines_exec(&chars_of(original.as_str()));
    let b = lines_exec(&chars_of(modified.as_str()));
    let ghost av = a.deep_view();
    let ghost bv = b.deep_view();
    let mut hunks: Vec<DiffHunk> = Vec::new();
    let mut current: Vec<LineChange> = Vec::new();
    let mut additions: usize = 0;
    let mut deletions: usize = 0;
    let mut i: usize = 0;
    let mut j: usize = 0;
    let mut hi: usize = 0;
    let mut hj: usize = 0;
    while i < a.len() || j < b.len()
        invariant
            av == a.deep_view(),
            bv == b.deep_view(),
            av.len() + bv.len() < usize::MAX,
            hi <= i <= a.len(),
            hj <= j <= b.len(),
            current@.len() <= 50,
            (i - hi) + (j - hj) <= 2 * current@.len(),
            additions + diff_count_from(av, bv, i as int, j as int, true) == diff_count_from(av, bv, 0, 0, true),
            deletions + diff_count_from(av, bv, i as int, j as int, false) == diff_count_from(av, bv, 0, 0, false),
            additions <= j,
            deletions <= i,
            hunks@.map_values(|h: DiffHunk| h@) + diff_hunks_from(
                av,
                bv,
                i as int,
                j as int,
                hi as int,
                hj as int,
                current@.map_values(|c: LineChange| c@),
            ) == diff_hunks_from(av, bv, 0, 0, 0, 0, Seq::empty()),
        decreases a.len() + b.len() - i - j,
    {
        let ghost cur0 = current@.map_values(|c: LineChange| c@);
        let ghost step = (step_changes(av, bv, i as int, j as int), step_i(av, i as int), step_j(av, bv, i as int, j as int));
        if i >= a.len() {
            assert(bv[j as int] =~= b@[j as int]@);
            push_change(&mut current, new_change("add", None, Some(j + 1), &b[j]));
            additions += 1;
            j += 1;
        } else if j >= b.len() {
            assert(av[i as int] =~= a@[i as int]@);
            push_change(&mut current, new_change("delete", Some(i + 1), None, &a[i]));
            deletions += 1;
            i += 1;
        } else if same_chars(&a[i], &b[j]) {
            assert(av[i as int] =~= a@[i as int]@);
            assert(bv[j as int] =~= b@[j as int]@);
            push_change(&mut current, new_change("context", Some(i + 1), Some(j + 1), &a[i]));
            i += 1;
            j += 1;
        } else {
            assert(av[i as int] =~= a@[i as int]@);
            assert(bv[j as int] =~= b@[j as int]@);
            push_change(&mut current, new_change("delete", Some(i + 1), None, &a[i]));
            push_change(&mut current, new_change("add", None, Some(j + 1), &b[j]));
            deletions += 1;
            additions += 1;
            i += 1;
            j += 1;
        }
        assert(current@.map_values(|c: LineChange| c@) =~= cur0 + step.0);
        assert(i == step.1 && j == step.2);
        if current.len() > 50 || (i >= a.len() && j >= b.len()) {
            let hunk = DiffHunk {
                old_start: hi + 1,
                old_lines: i - hi,
                new_start: hj + 1,
                new_lines: j - hj,
                changes: current,
            };
            current = Vec::new();
            let ghost before = hunks@.map_values(|h: DiffHunk| h@);
            hunks.push(hunk);
            assert(hunks@.map_values(|h: DiffHunk| h@) =~= before.push(
                make_hunk(hi as int, hj as int, i as int, j as int, cur0 + step.0),
            ));
            assert(current@.map_values(|c: LineChange| c@) =~= Seq::<ChangeView>::empty());
            hi = i;
            hj = j;
        }
    }
    let ghost rest = diff_hunks_from(av, bv, i as int, j as int, hi as int, hj as int, current@.map_values(|c: LineChange| c@));
    assert(rest =~= Seq::<FileHunkView>::empty());
    assert(hunks@.map_values(|h: DiffHunk| h@) =~= diff_hunks_from(av, bv, 0, 0, 0, 0, Seq::empty()));
    if hunks.len() == 0 {
        proof {
            if av.len() > 0 || bv.len() > 0 {
                lemma_diff_hunks_nonempty(av, bv);
            }
        }
        let hunk = DiffHunk { old_start: 1, old_lines: 0, new_start: 1, new_lines: 0, changes: Vec::new() };
        assert(hunk@.changes =~= Seq::<ChangeView>::empty());
        hunks.push(hunk);
        assert(hunks@.map_values(|h: DiffHunk| h@) =~= file_diff_hunks(original@, modified@));
    }
    proof {
        law_file_diff_sides(original@, modified@);
    }
    Ok(
        FileDiff {
            file_path,
            hunks,
            stats: DiffStats { additions, deletions, changes: additions + deletions },
        },
    )
}

/// Where some line is left, the diff has a hunk.
proof fn lemma_diff_hunks_nonempty(a: Seq<Seq<char>>, b: Seq<Seq<char>>)
    requires
        a.len() > 0 || b.len() > 0,
    ensures
        diff_hunks_from(a, b, 0, 0, 0, 0, Seq::empty()).len() > 0,
{
    lemma_hunks_from_nonempty(a, b, 0, 0, 0, 0, Seq::empty());
}

/// From any open position, the diff still closes a hunk.
proof fn lemma_hunks_from_nonempty(
    a: Seq<Seq<char>>,
    b: Seq<Seq<char>>,
    i: int,
    j: int,
    hi: int,
    hj: int,
    cur: Seq<ChangeView>,
)
    requires
        0 <= i <= a.len(),
        0 <= j <= b.len(),
        i < a.len() || j < b.len(),
    ensures
        diff_hunks_from(a, b, i, j, hi, hj, cur).len() > 0,
    decreases a.len() + b.len() - i - j,
{
    let i2 = step_i(a, i);
    let j2 = step_j(a, b, i, j);
    let cur2 = cur + step_changes(a, b, i, j);
    if cur2.len() > 50 || (i2 >= a.len() && j2 >= b.len()) {
    } else {
        lemma_hunks_from_nonempty(a, b, i2, j2, hi, hj, cur2);
    }
}

/// A line change.
fn new_change(kind: &str, old_line_number: Option<usize>, new_line_number: Option<usize>, content: &Vec<char>) -> (c: LineChange)
    ensures
        c@ == (ChangeView { change_type: kind@, old_line_number, new_line_number, content: content@ }),
{
    LineChange {
        change_type: kind.to_owned(),
        old_line_number,
        new_line_number,
        content: string_of_all(content),
    }
}

/// Appends one change.
fn push_change(cs: &mut Vec<LineChange>, c: LineChange)
    ensures
        final(cs)@.map_values(|x: LineChange| x@) == old(cs)@.map_values(|x: LineChange| x@).push(c@),
        final(cs)@.len() == old(cs)@.len() + 1,
{
    let ghost before = cs@.map_values(|x: LineChange| x@);
    let ghost cv = c@;
    cs.push(c);
    assert(cs@.map_values(|x: LineChange| x@) =~= before.push(cv));
}

// ---------------------------------------------------------------------------
// The hunks cover both texts
// ---------------------------------------------------------------------------

/// The lines of the old text that `cs` holds: its context and deleted
/// lines, in order.
pub open spec fn old_side(cs: Seq<ChangeView>) -> Seq<Seq<char>>
    decreases cs.len(),
{
    if cs.len() == 0 {
        Seq::empty()
    } else if cs.last().change_type == "add"@ {
        old_side(cs.drop_last())
    } else {
        old_side(cs.drop_last()).push(cs.last().content)
    }
}

/// The lines of the new text that `cs` holds: its context and added
/// lines, in order.
pub open spec fn new_side(cs: Seq<ChangeView>) -> Seq<Seq<char>>
    decreases cs.len(),
{
    if cs.len() == 0 {
        Seq::empty()
    } else if cs.last().change_type == "delete"@ {
        new_side(cs.drop_last())
    } else {
        new_side(cs.drop_last()).push(cs.last().content)
    }
}

/// The old-text lines of all the hunks of `hs`, in order.
pub open spec fn hunks_old_side(hs: Seq<FileHunkView>) -> Seq<Seq<char>>
    decreases hs.len(),
{
    if hs.len() == 0 {
        Seq::empty()
    } else {
        hunks_old_side(hs.drop_last()) + old_side(hs.last().changes)
    }
}

/// The new-text lines of all the hunks of `hs`, in order.
pub open spec fn hunks_new_side(hs: Seq<FileHunkView>) -> Seq<Seq<char>>
    decreases hs.len(),
{
    if hs.len() == 0 {
        Seq::empty()
    } else {
        hunks_new_side(hs.drop_last()) + new_side(hs.last().changes)
    }
}

/// The sides of two runs of changes are the sides of each.
proof fn lemma_sides_concat(x: Seq<ChangeView>, y: Seq<ChangeView>)
    ensures
        old_side(x + y) == old_side(x) + old_side(y),
        new_side(x + y) == new_side(x) + new_side(y),
    decreases y.len(),
{
    if y.len() == 0 {
        assert(x + y =~= x);
        assert(old_side(x) + old_side(y) =~= old_side(x));
        assert(new_side(x) + new_side(y) =~= new_side(x));
    } else {
        lemma_sides_concat(x, y.drop_last());
        assert((x + y).drop_last() =~= x + y.drop_last());
        assert((x + y).last() == y.last());
        assert(old_side(x + y) =~= old_side(x) + old_side(y));
        assert(new_side(x + y) =~= new_side(x) + new_side(y));
    }
}

/// The sides of a first hunk and the rest.
proof fn lemma_hunk_sides_cons(h: FileHunkView, rest: Seq<FileHunkView>)
    ensures
        hunks_old_side(seq![h] + rest) == old_side(h.changes) + hunks_old_side(rest),
        hunks_new_side(seq![h] + rest) == new_side(h.changes) + hunks_new_side(rest),
    decreases rest.len(),
{
    if rest.len() == 0 {
        assert(seq![h] + rest =~= seq![h]);
        assert(seq![h].drop_last() =~= Seq::<FileHunkView>::empty());
        assert(seq![h].last() == h);
        assert(hunks_old_side(Seq::<FileHunkView>::empty()) =~= Seq::<Seq<char>>::empty());
        assert(hunks_new_side(Seq::<FileHunkView>::empty()) =~= Seq::<Seq<char>>::empty());
        assert(hunks_old_side(seq![h]) =~= old_side(h.changes));
        assert(hunks_new_side(seq![h]) =~= new_side(h.changes));
        assert(old_side(h.changes) + hunks_old_side(rest) =~= old_side(h.changes));
        assert(new_side(h.changes) + hunks_new_side(rest) =~= new_side(h.changes));
    } else {
        lemma_hunk_sides_cons(h, rest.drop_last());
        assert((seq![h] + rest).drop_last() =~= seq![h] + rest.drop_last());
        assert((seq![h] + rest).last() == rest.last());
        assert(hunks_old_side(seq![h] + rest) =~= old_side(h.changes) + hunks_old_side(rest));
        assert(hunks_new_side(seq![h] + rest) =~= new_side(h.changes) + hunks_new_side(rest));
    }
}

/// One step of the diff holds the old line it passes and the new line it
/// passes.
proof fn lemma_step_sides(a: Seq<Seq<char>>, b: Seq<Seq<char>>, i: int, j: int)
    requires
        diff_open(a, b, i, j),
    ensures
        old_side(step_changes(a, b, i, j)) == a.subrange(i, step_i(a, i)),
        new_side(step_changes(a, b, i, j)) == b.subrange(j, step_j(a, b, i, j)),
{
    reveal_strlit("add");
    reveal_strlit("delete");
    reveal_strlit("context");
    assert("add"@ != "delete"@ && "context"@ != "add"@ && "context"@ != "delete"@) by {
        assert("add"@.len() != "delete"@.len());
        assert("context"@.len() != "add"@.len());
        assert("context"@.len() != "delete"@.len());
    }
    assert(old_side(Seq::<ChangeView>::empty()) =~= Seq::<Seq<char>>::empty());
    assert(new_side(Seq::<ChangeView>::empty()) =~= Seq::<Seq<char>>::empty());
    let s = step_changes(a, b, i, j);
    if i >= a.len() {
        assert(s.drop_last() =~= Seq::<ChangeView>::empty());
        assert(a.subrange(i, i) =~= Seq::<Seq<char>>::empty());
        assert(b.subrange(j, j + 1) =~= seq![b[j]]);
        assert(new_side(s) =~= seq![b[j]]);
    } else if j >= b.len() {
        assert(s.drop_last() =~= Seq::<ChangeView>::empty());
        assert(a.subrange(i, i + 1) =~= seq![a[i]]);
        assert(b.subrange(j, j) =~= Seq::<Seq<char>>::empty());
        assert(old_side(s) =~= seq![a[i]]);
        assert(new_side(s) =~= Seq::<Seq<char>>::empty());
    } else if a[i] == b[j] {
        assert(s.drop_last() =~= Seq::<ChangeView>::empty());
        assert(a.subrange(i, i + 1) =~= seq![a[i]]);
        assert(b.subrange(j, j + 1) =~= seq![b[j]]);
        assert(old_side(s) =~= seq![a[i]]);
        assert(new_side(s) =~= seq![b[j]]);
    } else {
        assert(s.drop_last() =~= seq![delete_change(i, a[i])]);
        assert(s.drop_last().drop_last() =~= Seq::<ChangeView>::empty());
        assert(a.subrange(i, i + 1) =~= seq![a[i]]);
        assert(b.subrange(j, j + 1) =~= seq![b[j]]);
        assert(old_side(s.drop_last()) =~= seq![a[i]]);
        assert(old_side(s) =~= seq![a[i]]);
        assert(new_side(s.drop_last()) =~= Seq::<Seq<char>>::empty());
        assert(new_side(s) =~= seq![b[j]]);
    }
}

/// The hunks from lines `i` and `j` on, with the open hunk's changes
/// `cur`, hold on each side what `cur` holds and then the rest of that
/// text.
proof fn lemma_hunks_sides(
    a: Seq<Seq<char>>,
    b: Seq<Seq<char>>,
    i: int,
    j: int,
    hi: int,
    hj: int,
    cur: Seq<ChangeView>,
)
    requires
        0 <= i <= a.len(),
        0 <= j <= b.len(),
        diff_open(a, b, i, j) || cur.len() == 0,
    ensures
        hunks_old_side(diff_hunks_from(a, b, i, j, hi, hj, cur)) == old_side(cur) + a.subrange(i, a.len() as int),
        hunks_new_side(diff_hunks_from(a, b, i, j, hi, hj, cur)) == new_side(cur) + b.subrange(j, b.len() as int),
    decreases a.len() + b.len() - i - j,
{
    if !diff_open(a, b, i, j) {
        assert(diff_hunks_from(a, b, i, j, hi, hj, cur) =~= Seq::<FileHunkView>::empty());
        assert(old_side(cur) =~= Seq::<Seq<char>>::empty());
        assert(new_side(cur) =~= Seq::<Seq<char>>::empty());
        assert(a.subrange(i, a.len() as int) =~= Seq::<Seq<char>>::empty());
        assert(b.subrange(j, b.len() as int) =~= Seq::<Seq<char>>::empty());
    } else {
        let i2 = step_i(a, i);
        let j2 = step_j(a, b, i, j);
        let step = step_changes(a, b, i, j);
        let cur2 = cur + step;
        lemma_step_sides(a, b, i, j);
        lemma_sides_concat(cur, step);
        assert(a.subrange(i, i2) + a.subrange(i2, a.len() as int) =~= a.subrange(i, a.len() as int));
        assert(b.subrange(j, j2) + b.subrange(j2, b.len() as int) =~= b.subrange(j, b.len() as int));
        if cur2.len() > 50 || (i2 >= a.len() && j2 >= b.len()) {
            let rest = diff_hunks_from(a, b, i2, j2, i2, j2, Seq::empty());
            lemma_hunks_sides(a, b, i2, j2, i2, j2, Seq::empty());
            lemma_hunk_sides_cons(make_hunk(hi, hj, i2, j2, cur2), rest);
            assert(old_side(Seq::<ChangeView>::empty()) + a.subrange(i2, a.len() as int) =~= a.subrange(i2, a.len() as int));
            assert(new_side(Seq::<ChangeView>::empty()) + b.subrange(j2, b.len() as int) =~= b.subrange(j2, b.len() as int));
        } else {
            lemma_hunks_sides(a, b, i2, j2, hi, hj, cur2);
        }
    }
}

/// Read on the old side, the hunks of a file diff give the original's
/// lines; read on the new side, the modified text's lines.
pub proof fn law_file_diff_sides(original: Seq<char>, modified: Seq<char>)
    ensures
        hunks_old_side(file_diff_hunks(original, modified)) == lines(original),
        hunks_new_side(file_diff_hunks(original, modified)) == lines(modified),
{
    let a = lines(original);
    let b = lines(modified);
    if a.len() == 0 && b.len() == 0 {
        let h = FileHunkView { old_start: 1, old_lines: 0, new_start: 1, new_lines: 0, changes: Seq::empty() };
        assert(seq![h].drop_last() =~= Seq::<FileHunkView>::empty());
        assert(seq![h].last() == h);
        assert(hunks_old_side(Seq::<FileHunkView>::empty()) =~= Seq::<Seq<char>>::empty());
        assert(hunks_new_side(Seq::<FileHunkView>::empty()) =~= Seq::<Seq<char>>::empty());
        assert(old_side(Seq::<ChangeView>::empty()) =~= Seq::<Seq<char>>::empty());
        assert(new_side(Seq::<ChangeView>::empty()) =~= Seq::<Seq<char>>::empty());
        assert(hunks_old_side(seq![h]) =~= a);
        assert(hunks_new_side(seq![h]) =~= b);
    } else {
        lemma_hunks_sides(a, b, 0, 0, 0, 0, Seq::empty());
        assert(old_side(Seq::<ChangeView>::empty()) + a.subrange(0, a.len() as int) =~= a);
        assert(new_side(Seq::<ChangeView>::empty()) + b.subrange(0, b.len() as int) =~= b);
    }
}

} // verus!
