//! Parsing of compiler and interpreter error messages into structured form.

use vstd::prelude::*;

use crate::text::{
    append_str, chars_of, contains, contains_str, decimal, find, find_char, find_str,
    find_str_in_tail, join, lemma_find_from, lines, lines_exec, nth, parse_u32, parse_u32_exec,
    push_decimal, rfind, slice_vec, split, split_char, split_exec, starts_with, string_of,
    string_of_all, tail, trim, trim_bounds, trim_vec, trimmed_string, law_join_holds_parts,
    lemma_contains_within, lemma_find_first, occurs_at,
};

verus! {

broadcast use vstd::string::group_string_axioms;

/// How serious an error is.
#[derive(Debug, Clone, Copy, PartialEq, Eq, Structural)]
pub enum ErrorSeverity {
    Critical,
    High,
    Medium,
    Low,
}

/// One frame of a stack trace.
#[derive(Debug, Clone)]
pub struct StackFrame {
    pub function: String,
    pub file: String,
    pub line: u32,
    pub column: Option<u32>,
}

/// Parsed error information.
#[derive(Debug, Clone)]
pub struct ParsedError {
    pub error_type: String,
    pub message: String,
    pub file_path: Option<String>,
    pub line: Option<u32>,
    pub column: Option<u32>,
    pub stack_trace: Vec<StackFrame>,
    pub severity: ErrorSeverity,
}

/// The analysis of a stack trace, as the model reports it.
#[derive(Debug, Clone)]
pub struct StackTraceAnalysis {
    pub root_cause_frame: usize,
    pub explanation: String,
    pub error_path: String,
    pub recommendations: Vec<String>,
}

/// A stack frame as values.
pub struct FrameView {
    pub function: Seq<char>,
    pub file: Seq<char>,
    pub line: u32,
    pub column: Option<u32>,
}

/// A parsed error as values.
pub struct ParsedErrorView {
    pub error_type: Seq<char>,
    pub message: Seq<char>,
    pub file_path: Option<Seq<char>>,
    pub line: Option<u32>,
    pub column: Option<u32>,
    pub stack_trace: Seq<FrameView>,
    pub severity: ErrorSeverity,
}

impl View for StackFrame {
    type V = FrameView;

    open spec fn view(&self) -> FrameView {
        FrameView {
            function: self.function@,
            file: self.file@,
            line: self.line,
            column: self.column,
        }
    }
}

impl View for ParsedError {
    type V = ParsedErrorView;

    open spec fn view(&self) -> ParsedErrorView {
        ParsedErrorView {
            error_type: self.error_type@,
            message: self.message@,
            file_path: self.file_path.deep_view(),
            line: self.line,
            column: self.column,
            stack_trace: self.stack_trace@.map_values(|f: StackFrame| f@),
            severity: self.severity,
        }
    }
}

/// The fields that a scan over the lines of a message fills in.
pub struct ScanFields {
    pub file_path: Option<Seq<char>>,
    pub line: Option<u32>,
    pub column: Option<u32>,
    pub message: Seq<char>,
    pub error_type: Seq<char>,
}

// ---------------------------------------------------------------------------
// TypeScript: "file.ts(line,col): error TSxxxx: message"
// ---------------------------------------------------------------------------

/// A line on which the TypeScript scan slices `line[paren + 1..colon]`
/// with the first `'('` after the first `"): "`, which would panic.
pub open spec fn ts_line_panics(line: Seq<char>) -> bool {
    match (find(line, "): "@), find(line, seq!['('])) {
        (Some(colon), Some(paren)) => paren > colon,
        _ => false,
    }
}

/// No line of `text` makes the TypeScript scan panic.
pub open spec fn ts_text_ok(text: Seq<char>) -> bool {
    forall|i: int| 0 <= i < lines(text).len() ==> !ts_line_panics(#[trigger] lines(text)[i])
}

/// The error code of a line that holds `"error"`: from the first `"TS"` to
/// the next `':'`, where both are found.
pub open spec fn ts_code(line: Seq<char>, previous: Seq<char>) -> Seq<char> {
    match find(line, "TS"@) {
        None => previous,
        Some(t) => match find(tail(line, t), seq![':']) {
            None => previous,
            Some(c) => line.subrange(t, t + c),
        },
    }
}

/// What one line changes in the TypeScript scan.
pub open spec fn ts_step(st: ScanFields, line: Seq<char>) -> ScanFields {
    match find(line, "): "@) {
        None => st,
        Some(colon) => match find(line, seq!['(']) {
            None => st,
            Some(paren) => {
                let parts = split(line.subrange(paren + 1, colon), seq![',']);
                let (message, error_type) = match find(line, "error"@) {
                    None => (st.message, st.error_type),
                    Some(m) => (tail(line, m), ts_code(line, st.error_type)),
                };
                ScanFields {
                    file_path: Some(trim(line.subrange(0, paren))),
                    line: parse_u32(parts[0]),
                    column: match nth(parts, 1) {
                        Some(p) => parse_u32(p),
                        None => None,
                    },
                    message,
                    error_type,
                }
            },
        },
    }
}

/// The fields before any line is read by a parser whose error type starts
/// as `error_type`.
pub open spec fn scan_start(error_type: Seq<char>) -> ScanFields {
    ScanFields {
        file_path: None,
        line: None,
        column: None,
        message: Seq::empty(),
        error_type,
    }
}

/// The TypeScript scan over `ls`, line by line.
pub open spec fn ts_scan(ls: Seq<Seq<char>>) -> ScanFields
    decreases ls.len(),
{
    if ls.len() == 0 {
        scan_start("TypeScript Error"@)
    } else {
        ts_step(ts_scan(ls.drop_last()), ls.last())
    }
}

/// The parse of a TypeScript error message.
pub open spec fn ts_parsed(text: Seq<char>) -> ParsedErrorView {
    let f = ts_scan(lines(text));
    ParsedErrorView {
        error_type: f.error_type,
        message: f.message,
        file_path: f.file_path,
        line: f.line,
        column: f.column,
        stack_trace: Seq::empty(),
        severity: ErrorSeverity::High,
    }
}

/// A TypeScript error line: it gives a location (a `'('` and a `"): "`)
/// and holds `"error"`.
pub open spec fn ts_error_line(line: Seq<char>) -> bool {
    contains(line, "): "@) && contains(line, seq!['(']) && contains(line, "error"@)
}

/// No character of `s` is `c`.
pub open spec fn lacks(s: Seq<char>, c: char) -> bool {
    forall|i: int| 0 <= i < s.len() ==> s[i] != c
}

/// Where `s` lacks `c`, `c` occurs nowhere in it as a one-character text.
proof fn lemma_lacks_no_occurrence(s: Seq<char>, c: char, h: Seq<char>, off: int)
    requires
        lacks(s, c),
        0 <= off,
        off + s.len() <= h.len(),
        h.subrange(off, off + s.len()) == s,
    ensures
        forall|j: int| off <= j < off + s.len() ==> h[j] != c,
{
    assert forall|j: int| off <= j < off + s.len() implies h[j] != c by {
        assert(h.subrange(off, off + s.len())[j - off] == h[j]);
    }
}

/// The location of a TypeScript error line `path(line,col): ...` (a path
/// without parentheses, numbers without commas or parentheses): its file
/// is the path, trimmed, and its line and column are the two numbers.
pub proof fn law_ts_location(prev: ScanFields, path: Seq<char>, ln: Seq<char>, col: Seq<char>, rest: Seq<char>)
    requires
        lacks(path, '('),
        lacks(path, ')'),
        lacks(ln, ')'),
        lacks(ln, ','),
        lacks(col, ')'),
        lacks(col, ','),
    ensures
        ({
            let st = ts_step(prev, path + "("@ + ln + ","@ + col + "): "@ + rest);
            st.file_path == Some(trim(path)) && st.line == parse_u32(ln) && st.column == parse_u32(
                col,
            )
        }),
{
    reveal_strlit("(");
    reveal_strlit(",");
    reveal_strlit("): ");
    let l = path + "("@ + ln + ","@ + col + "): "@ + rest;
    let p0: int = path.len() as int;
    let c0: int = (path.len() + 1 + ln.len() + 1 + col.len()) as int;
    // The first '(' follows the path.
    assert(l.subrange(0, p0) =~= path);
    lemma_lacks_no_occurrence(path, '(', l, 0);
    assert(l.subrange(p0, p0 + 1) =~= seq!['(']);
    assert forall|j: int| 0 <= j < p0 implies !occurs_at(l, seq!['('], j) by {
        if occurs_at(l, seq!['('], j) {
            assert(l.subrange(j, j + 1)[0] == l[j]);
        }
    }
    lemma_find_first(l, seq!['('], p0);
    // The first "): " follows the column.
    assert(l.subrange(p0 + 1, p0 + 1 + ln.len()) =~= ln);
    assert(l.subrange(p0 + 2 + ln.len(), c0) =~= col);
    lemma_lacks_no_occurrence(path, ')', l, 0);
    lemma_lacks_no_occurrence(ln, ')', l, p0 + 1);
    lemma_lacks_no_occurrence(col, ')', l, p0 + 2 + ln.len());
    assert(l.subrange(c0, c0 + 3) =~= "): "@);
    assert forall|j: int| 0 <= j < c0 implies !occurs_at(l, "): "@, j) by {
        if occurs_at(l, "): "@, j) {
            assert(l.subrange(j, j + 3)[0] == l[j]);
        }
    }
    lemma_find_first(l, "): "@, c0);
    // Between them, the two numbers.
    let inner = l.subrange(p0 + 1, c0);
    assert(inner =~= ln + ","@ + col);
    assert(inner.subrange(0, ln.len() as int) =~= ln);
    lemma_lacks_no_occurrence(ln, ',', inner, 0);
    assert(inner.subrange(ln.len() as int, ln.len() + 1int) =~= seq![',']);
    assert forall|j: int| 0 <= j < ln.len() implies !occurs_at(inner, seq![','], j) by {
        if occurs_at(inner, seq![','], j) {
            assert(inner.subrange(j, j + 1)[0] == inner[j]);
        }
    }
    lemma_find_first(inner, seq![','], ln.len() as int);
    let after = inner.subrange(ln.len() + 1int, inner.len() as int);
    assert(after =~= col);
    assert forall|j: int| 0 <= j < col.len() implies !occurs_at(col, seq![','], j) by {
        if occurs_at(col, seq![','], j) {
            assert(col.subrange(j, j + 1)[0] == col[j]);
        }
    }
    lemma_find_from(col, seq![','], 0);
    assert(split(col, seq![',']) == seq![col]);
    assert(inner.subrange(0, ln.len() as int) =~= ln);
    assert(split(inner, seq![',']) == seq![ln] + split(col, seq![',']));
}

/// A TypeScript error whose last line is `path(line,col): ...` is located
/// there: its file is the path, trimmed, its line and column the numbers.
pub proof fn law_ts_parsed_location(text: Seq<char>, path: Seq<char>, ln: Seq<char>, col: Seq<char>, rest: Seq<char>)
    requires
        lines(text).len() > 0,
        lines(text).last() == path + "("@ + ln + ","@ + col + "): "@ + rest,
        lacks(path, '('),
        lacks(path, ')'),
        lacks(ln, ')'),
        lacks(ln, ','),
        lacks(col, ')'),
        lacks(col, ','),
    ensures
        ts_parsed(text).file_path == Some(trim(path)),
        ts_parsed(text).line == parse_u32(ln),
        ts_parsed(text).column == parse_u32(col),
{
    law_ts_location(ts_scan(lines(text).drop_last()), path, ln, col, rest);
}

/// The part of a line from its first `"error"` on begins with `"error"`.
proof fn lemma_from_error(line: Seq<char>)
    requires
        contains(line, "error"@),
    ensures
        find(line, "error"@) matches Some(m) && 0 <= m && starts_with(tail(line, m), "error"@)
            && tail(line, m).len() > 0,
{
    lemma_find_from(line, "error"@, 0);
    let m = find(line, "error"@)->0;
    reveal_strlit("error");
    assert(tail(line, m).subrange(0, 5) =~= line.subrange(m, m + 5));
}

/// Through the TypeScript scan, the message is empty or begins with
/// `"error"`, and once an error line has been read it begins with
/// `"error"`.
proof fn lemma_ts_scan_message(ls: Seq<Seq<char>>)
    ensures
        ts_scan(ls).message.len() == 0 || starts_with(ts_scan(ls).message, "error"@),
        (exists|i: int| 0 <= i < ls.len() && ts_error_line(#[trigger] ls[i])) ==> starts_with(
            ts_scan(ls).message,
            "error"@,
        ),
    decreases ls.len(),
{
    if ls.len() > 0 {
        let init = ls.drop_last();
        let l = ls.last();
        lemma_ts_scan_message(init);
        if contains(l, "error"@) {
            lemma_from_error(l);
        }
        if exists|i: int| 0 <= i < ls.len() && ts_error_line(#[trigger] ls[i]) {
            let i = choose|i: int| 0 <= i < ls.len() && ts_error_line(#[trigger] ls[i]);
            if i < ls.len() - 1 {
                assert(init[i] == ls[i]);
            } else {
                assert(ts_error_line(l));
            }
        }
    }
}

/// The message of a TypeScript error is its error line from the first
/// `"error"` on: where the last line is an error line, the message is
/// that line from its first `"error"`; and where any line is one, the
/// message is not empty and begins with `"error"`.
pub proof fn law_ts_message(text: Seq<char>)
    ensures
        lines(text).len() > 0 && ts_error_line(lines(text).last()) ==> ts_parsed(text).message
            == tail(lines(text).last(), find(lines(text).last(), "error"@)->0),
        (exists|i: int| 0 <= i < lines(text).len() && ts_error_line(#[trigger] lines(text)[i]))
            ==> ts_parsed(text).message.len() > 0 && starts_with(ts_parsed(text).message, "error"@),
{
    let ls = lines(text);
    lemma_ts_scan_message(ls);
    if ls.len() > 0 && ts_error_line(ls.last()) {
        lemma_find_from(ls.last(), "): "@, 0);
        lemma_find_from(ls.last(), seq!['('], 0);
        lemma_from_error(ls.last());
    }
    if exists|i: int| 0 <= i < ls.len() && ts_error_line(#[trigger] ls[i]) {
        reveal_strlit("error");
    }
}

// ---------------------------------------------------------------------------
// Rust: "error[E0xxx]: message" and "--> src/main.rs:10:5"
// ---------------------------------------------------------------------------

/// A line on which the Rust scan slices `line['[' + 1..']']` with a `']'`
/// before the `'['`, which would panic.
pub open spec fn rust_line_panics(line: Seq<char>) -> bool {
    starts_with(trim(line), "error"@) && match (find(line, seq!['[']), find(line, seq![']'])) {
        (Some(b), Some(e)) => e < b,
        _ => false,
    }
}

/// No line of `text` makes the Rust scan panic.
pub open spec fn rust_text_ok(text: Seq<char>) -> bool {
    forall|i: int| 0 <= i < lines(text).len() ==> !rust_line_panics(#[trigger] lines(text)[i])
}

/// What a line that starts with `"error"` changes in the Rust scan.
pub open spec fn rust_error_line(st: ScanFields, line: Seq<char>) -> ScanFields {
    let error_type = match (find(line, seq!['[']), find(line, seq![']'])) {
        (Some(b), Some(e)) => line.subrange(b + 1, e),
        _ => st.error_type,
    };
    let message = match find(line, seq![':']) {
        Some(c) => trim(tail(line, c + 1)),
        None => st.message,
    };
    ScanFields { error_type, message, ..st }
}

/// What a line that holds `"-->"` changes in the Rust scan.
pub open spec fn rust_location_line(st: ScanFields, line: Seq<char>) -> ScanFields {
    let location = trim(split(line, "-->"@)[1]);
    let parts = split(location, seq![':']);
    ScanFields {
        file_path: Some(parts[0]),
        line: match nth(parts, 1) {
            Some(p) => parse_u32(p),
            None => None,
        },
        column: match nth(parts, 2) {
            Some(p) => parse_u32(p),
            None => None,
        },
        ..st
    }
}

/// What one line changes in the Rust scan.
pub open spec fn rust_step(st: ScanFields, line: Seq<char>) -> ScanFields {
    let st1 = if starts_with(trim(line), "error"@) {
        rust_error_line(st, line)
    } else {
        st
    };
    if contains(line, "-->"@) {
        rust_location_line(st1, line)
    } else {
        st1
    }
}

/// The Rust scan over `ls`, line by line.
pub open spec fn rust_scan(ls: Seq<Seq<char>>) -> ScanFields
    decreases ls.len(),
{
    if ls.len() == 0 {
        scan_start("Rust Error"@)
    } else {
        rust_step(rust_scan(ls.drop_last()), ls.last())
    }
}

/// The parse of a Rust error message.
pub open spec fn rust_parsed(text: Seq<char>) -> ParsedErrorView {
    let f = rust_scan(lines(text));
    ParsedErrorView {
        error_type: f.error_type,
        message: f.message,
        file_path: f.file_path,
        line: f.line,
        column: f.column,
        stack_trace: Seq::empty(),
        severity: ErrorSeverity::High,
    }
}

/// A Rust error line: trimmed, it begins with `"error"`.
pub open spec fn rust_error_start(line: Seq<char>) -> bool {
    starts_with(trim(line), "error"@)
}

/// The Rust scan's message is read from the last line that begins with
/// `"error"`.
proof fn lemma_rust_scan_message(ls: Seq<Seq<char>>, k: int)
    requires
        0 <= k < ls.len(),
        rust_error_start(ls[k]),
        contains(ls[k], seq![':']),
        forall|j: int| k < j < ls.len() ==> !rust_error_start(#[trigger] ls[j]),
    ensures
        rust_scan(ls).message == trim(tail(ls[k], find(ls[k], seq![':'])->0 + 1)),
    decreases ls.len(),
{
    let init = ls.drop_last();
    if k == ls.len() - 1 {
        lemma_find_from(ls[k], seq![':'], 0);
    } else {
        assert forall|j: int| k < j < init.len() implies !rust_error_start(#[trigger] init[j]) by {
            assert(init[j] == ls[j]);
        }
        assert(init[k] == ls[k]);
        assert(!rust_error_start(ls[ls.len() - 1]));
        lemma_rust_scan_message(init, k);
    }
}

/// The Rust scan's file is read from the last line that holds `"-->"`.
proof fn lemma_rust_scan_file(ls: Seq<Seq<char>>, l: int)
    requires
        0 <= l < ls.len(),
        contains(ls[l], "-->"@),
        forall|j: int| l < j < ls.len() ==> !contains(#[trigger] ls[j], "-->"@),
    ensures
        rust_scan(ls).file_path == Some(split(trim(split(ls[l], "-->"@)[1]), seq![':'])[0]),
    decreases ls.len(),
{
    let init = ls.drop_last();
    if l < ls.len() - 1 {
        assert forall|j: int| l < j < init.len() implies !contains(#[trigger] init[j], "-->"@) by {
            assert(init[j] == ls[j]);
        }
        assert(init[l] == ls[l]);
        assert(!contains(ls[ls.len() - 1], "-->"@));
        lemma_rust_scan_file(init, l);
    }
}

/// The message of a Rust error is what follows the first `':'` of its
/// last line that begins with `"error"`, trimmed.
pub proof fn law_rust_message(text: Seq<char>, k: int)
    requires
        0 <= k < lines(text).len(),
        rust_error_start(lines(text)[k]),
        contains(lines(text)[k], seq![':']),
        forall|j: int| k < j < lines(text).len() ==> !rust_error_start(#[trigger] lines(text)[j]),
    ensures
        rust_parsed(text).message == trim(
            tail(lines(text)[k], find(lines(text)[k], seq![':'])->0 + 1),
        ),
{
    lemma_rust_scan_message(lines(text), k);
}

/// The file of a Rust error is what follows its last `"-->"`, up to the
/// first `':'` after it.
pub proof fn law_rust_file(text: Seq<char>, l: int)
    requires
        0 <= l < lines(text).len(),
        contains(lines(text)[l], "-->"@),
        forall|j: int| l < j < lines(text).len() ==> !contains(#[trigger] lines(text)[j], "-->"@),
    ensures
        rust_parsed(text).file_path == Some(
            split(trim(split(lines(text)[l], "-->"@)[1]), seq![':'])[0],
        ),
{
    lemma_rust_scan_file(lines(text), l);
}

// ---------------------------------------------------------------------------
// Python: 'File "path.py", line 10, in function' and "XError: message"
// ---------------------------------------------------------------------------

/// The stack frame that a traceback line describes, where it names a file
/// between quotes.
pub open spec fn py_frame(line: Seq<char>) -> Option<FrameView> {
    match find(line, "File \""@) {
        None => None,
        Some(s) => match find(tail(line, s + 6), seq!['"']) {
            None => None,
            Some(e) => Some(
                FrameView {
                    function: match find(line, "in "@) {
                        Some(p) => trim(tail(line, p + 3)),
                        None => "<module>"@,
                    },
                    file: line.subrange(s + 6, s + 6 + e),
                    line: match find(line, "line "@) {
                        Some(p) => match parse_u32(trim(split(tail(line, p + 5), seq![','])[0])) {
                            Some(n) => n,
                            None => 0,
                        },
                        None => 0,
                    },
                    column: None,
                },
            ),
        },
    }
}

/// The frames of the traceback lines among `ls`, in order.
pub open spec fn py_frames(ls: Seq<Seq<char>>) -> Seq<FrameView>
    decreases ls.len(),
{
    if ls.len() == 0 {
        Seq::empty()
    } else {
        match py_frame(ls.last()) {
            Some(f) => py_frames(ls.drop_last()).push(f),
            None => py_frames(ls.drop_last()),
        }
    }
}

/// A traceback line: it names a file between quotes after `File "`.
pub open spec fn is_frame_line(line: Seq<char>) -> bool {
    py_frame(line) is Some
}

/// The frames are those of the traceback lines, in order, one per line.
proof fn lemma_py_frames_filter(ls: Seq<Seq<char>>)
    ensures
        py_frames(ls) == ls.filter(|l: Seq<char>| is_frame_line(l)).map_values(
            |l: Seq<char>| py_frame(l)->0,
        ),
    decreases ls.len(),
{
    reveal(Seq::filter);
    if ls.len() > 0 {
        lemma_py_frames_filter(ls.drop_last());
        let p = |l: Seq<char>| is_frame_line(l);
        let g = |l: Seq<char>| py_frame(l)->0;
        let sub = ls.drop_last().filter(p);
        if is_frame_line(ls.last()) {
            assert(ls.filter(p) == sub.push(ls.last()));
            assert(sub.push(ls.last()).map_values(g) =~= sub.map_values(g).push(g(ls.last())));
        } else {
            assert(ls.filter(p) == sub);
        }
    }
}

/// The stack trace of a Python traceback has one frame per traceback line
/// (a line naming a file between quotes after `File "`), in the order of
/// the lines, each the frame that line describes; so it has as many
/// frames as there are such lines.
pub proof fn law_py_stack_trace(text: Seq<char>)
    ensures
        py_parsed(text).stack_trace == lines(text).filter(|l: Seq<char>| is_frame_line(l)).map_values(
            |l: Seq<char>| py_frame(l)->0,
        ),
        py_parsed(text).stack_trace.len() == lines(text).filter(|l: Seq<char>| is_frame_line(l)).len(),
        forall|k: int|
            0 <= k < py_parsed(text).stack_trace.len() ==> Some(#[trigger] py_parsed(text).stack_trace[k])
                == py_frame(lines(text).filter(|l: Seq<char>| is_frame_line(l))[k]),
{
    lemma_py_frames_filter(lines(text));
}

/// The error type and message that the last line gives, where it holds
/// `"Error:"`.
pub open spec fn py_summary(ls: Seq<Seq<char>>) -> (Seq<char>, Seq<char>) {
    let default = ("Python Error"@, Seq::<char>::empty());
    if ls.len() == 0 || !contains(ls.last(), "Error:"@) {
        default
    } else {
        match find(ls.last(), seq![':']) {
            Some(c) => (trim(ls.last().subrange(0, c)), trim(tail(ls.last(), c + 1))),
            None => default,
        }
    }
}

/// A Python traceback that ends with `<type>: <message>`, where the type
/// holds no `':'` and the line holds `"Error:"`, gives that type and that
/// message, both trimmed.
pub proof fn law_py_summary(text: Seq<char>, name: Seq<char>, msg: Seq<char>)
    requires
        lines(text).len() > 0,
        lines(text).last() == name + ":"@ + msg,
        forall|i: int| 0 <= i < name.len() ==> name[i] != ':',
        contains(lines(text).last(), "Error:"@),
    ensures
        py_parsed(text).error_type == trim(name),
        py_parsed(text).message == trim(msg),
{
    reveal_strlit(":");
    let l = name + ":"@ + msg;
    assert(l.subrange(name.len() as int, name.len() + 1int) =~= seq![':']);
    assert forall|j: int| 0 <= j < name.len() implies !occurs_at(l, seq![':'], j) by {
        if occurs_at(l, seq![':'], j) {
            assert(l.subrange(j, j + 1)[0] == l[j]);
            assert(l[j] == name[j]);
        }
    }
    lemma_find_first(l, seq![':'], name.len() as int);
    assert(l.subrange(0, name.len() as int) =~= name);
    assert(tail(l, name.len() + 1int) =~= msg);
}

/// The parse of a Python traceback.
pub open spec fn py_parsed(text: Seq<char>) -> ParsedErrorView {
    let ls = lines(text);
    let frames = py_frames(ls);
    let (error_type, message) = py_summary(ls);
    ParsedErrorView {
        error_type,
        message,
        file_path: if frames.len() > 0 {
            Some(frames[0].file)
        } else {
            None
        },
        line: if frames.len() > 0 {
            Some(frames[0].line)
        } else {
            None
        },
        column: None,
        stack_trace: frames,
        severity: ErrorSeverity::High,
    }
}

// ---------------------------------------------------------------------------
// Dispatch
// ---------------------------------------------------------------------------

/// The parser that handles `text`: 0 for TypeScript/JavaScript, 1 for Rust,
/// 2 for Python, 3 for none.
pub open spec fn parser_for(text: Seq<char>) -> int {
    if contains(text, "TS"@) || contains(text, "Error:"@) {
        0
    } else if contains(text, "error[E"@) || contains(text, "error:"@) {
        1
    } else if contains(text, "Traceback"@) || contains(text, "File \""@) {
        2
    } else {
        3
    }
}

/// No parser that `text` is handed to panics on it.
pub open spec fn parse_error_ok(text: Seq<char>) -> bool {
    &&& parser_for(text) == 0 ==> ts_text_ok(text)
    &&& parser_for(text) == 1 ==> rust_text_ok(text)
}

/// The parse of any error message.
pub open spec fn error_parsed(text: Seq<char>) -> ParsedErrorView {
    let k = parser_for(text);
    if k == 0 {
        ts_parsed(text)
    } else if k == 1 {
        rust_parsed(text)
    } else if k == 2 {
        py_parsed(text)
    } else {
        ParsedErrorView {
            error_type: "Unknown"@,
            message: text,
            file_path: None,
            line: None,
            column: None,
            stack_trace: Seq::empty(),
            severity: ErrorSeverity::Medium,
        }
    }
}

// ---------------------------------------------------------------------------
// Executable parsers
// ---------------------------------------------------------------------------

/// The fields a scan fills in, as it runs.
struct Scan {
    file_path: Option<String>,
    line: Option<u32>,
    column: Option<u32>,
    message: String,
    error_type: String,
}

impl View for Scan {
    type V = ScanFields;

    closed spec fn view(&self) -> ScanFields {
        ScanFields {
            file_path: self.file_path.deep_view(),
            line: self.line,
            column: self.column,
            message: self.message@,
            error_type: self.error_type@,
        }
    }
}

impl Scan {
    fn start(error_type: &str) -> (r: Scan)
        ensures
            r@ == scan_start(error_type@),
    {
        Scan {
            file_path: None,
            line: None,
            column: None,
            message: String::new(),
            error_type: error_type.to_owned(),
        }
    }

    fn into_parsed(self) -> (r: ParsedError)
        ensures
            r@.error_type == self@.error_type,
            r@.message == self@.message,
            r@.file_path == self@.file_path,
            r@.line == self@.line,
            r@.column == self@.column,
            r@.stack_trace =~= Seq::<FrameView>::empty(),
            r@.severity == ErrorSeverity::High,
    {
        let r = ParsedError {
            error_type: self.error_type,
            message: self.message,
            file_path: self.file_path,
            line: self.line,
            column: self.column,
            stack_trace: Vec::new(),
            severity: ErrorSeverity::High,
        };
        r
    }
}

/// `str::parse::<u32>` of piece `i` of `parts`, where there is one.
fn parse_piece(parts: &Vec<Vec<char>>, i: usize) -> (r: Option<u32>)
    ensures
        r == (match nth(parts.deep_view(), i as int) {
            Some(p) => parse_u32(p),
            None => None,
        }),
{
    if i < parts.len() {
        assert(parts.deep_view()[i as int] =~= parts@[i as int]@);
        let p = &parts[i];
        assert(p@.subrange(0, p@.len() as int) =~= p@);
        parse_u32_exec(p, 0, p.len())
    } else {
        None
    }
}

/// One line of the TypeScript scan.
fn ts_step_exec(st: &mut Scan, line: &Vec<char>)
    requires
        !ts_line_panics(line@),
    ensures
        final(st)@ == ts_step(old(st)@, line@),
{
    let colon = match find_str(line, "): ") {
        Some(c) => c,
        None => return,
    };
    let paren = match find_char(line, '(') {
        Some(p) => p,
        None => return,
    };
    proof {
        lemma_find_from(line@, "): "@, 0);
        reveal_strlit("): ");
        assert(line@.subrange(colon as int, colon + 3)[0] == ')');
    }
    let coords = slice_vec(line, paren + 1, colon);
    let parts = split_char(&coords, ',');
    assert(parts.deep_view()[0] =~= parts@[0]@);
    let line_num = parse_piece(&parts, 0);
    let column = parse_piece(&parts, 1);
    st.file_path = Some(trimmed_string(line, 0, paren));
    st.line = line_num;
    st.column = column;
    if let Some(m) = find_str(line, "error") {
        proof {
            lemma_find_from(line@, "error"@, 0);
        }
        st.message = string_of(line, m, line.len());
        if let Some(t) = find_str(line, "TS") {
            proof {
                lemma_find_from(line@, "TS"@, 0);
            }
            let rest = slice_vec(line, t, line.len());
            if let Some(c) = find_char(&rest, ':') {
                st.error_type = string_of(line, t, t + c);
                assert(line@.subrange(t as int, t + c) =~= rest@.subrange(0, c as int).take(c as int));
            }
        }
    }
}

/// Parses a TypeScript error message: `file.ts(line,col): error TSxxxx: message`.
pub fn parse_typescript_error(error_text: &str) -> (r: Result<ParsedError, String>)
    requires
        ts_text_ok(error_text@),
    ensures
        r matches Ok(p) && p@ == ts_parsed(error_text@),
{
    let text = chars_of(error_text);
    let ls = lines_exec(&text);
    let mut st = Scan::start("TypeScript Error");
    let mut i: usize = 0;
    while i < ls.len()
        invariant
            i <= ls.len(),
            ls.deep_view() == lines(error_text@),
            ts_text_ok(error_text@),
            st@ == ts_scan(ls.deep_view().take(i as int)),
        decreases ls.len() - i,
    {
        assert(ls.deep_view()[i as int] =~= ls@[i as int]@);
        assert(!ts_line_panics(lines(error_text@)[i as int]));
        ts_step_exec(&mut st, &ls[i]);
        assert(ls.deep_view().take(i + 1).drop_last() =~= ls.deep_view().take(i as int));
        i += 1;
    }
    assert(ls.deep_view().take(ls.len() as int) =~= ls.deep_view());
    let p = st.into_parsed();
    Ok(p)
}

/// One line of the Rust scan.
fn rust_step_exec(st: &mut Scan, line: &Vec<char>)
    requires
        !rust_line_panics(line@),
    ensures
        final(st)@ == rust_step(old(st)@, line@),
{
    let ghost st0 = st@;
    let trimmed = trim_vec(line);
    let errorish = starts_with_str(&trimmed, "error");
    if errorish {
        match (find_char(line, '['), find_char(line, ']')) {
            (Some(b), Some(e)) => {
                st.error_type = string_of(line, b + 1, e);
            },
            _ => {},
        }
        if let Some(c) = find_char(line, ':') {
            st.message = trimmed_string(line, c + 1, line.len());
        }
    }
    let ghost st1 = st@;
    assert(st1 == (if starts_with(trim(line@), "error"@) {
        rust_error_line(st0, line@)
    } else {
        st0
    }));
    if contains_str(line, "-->") {
        let arrow: Vec<char> = chars_of("-->");
        proof {
            reveal_strlit("-->");
        }
        let halves = split_exec(line, &arrow);
        proof {
            lemma_split_found(line@, "-->"@);
        }
        assert(halves.deep_view()[1] =~= halves@[1]@);
        let location = trim_vec(&halves[1]);
        let parts = split_char(&location, ':');
        assert(parts.deep_view()[0] =~= parts@[0]@);
        st.file_path = Some(string_of_all(&parts[0]));
        st.line = parse_piece(&parts, 1);
        st.column = parse_piece(&parts, 2);
    }
}

/// Where the separator occurs, the split has at least two pieces.
proof fn lemma_split_found(s: Seq<char>, sep: Seq<char>)
    requires
        sep.len() > 0,
        contains(s, sep),
    ensures
        split(s, sep).len() >= 2,
{
    let k = find(s, sep)->0;
    lemma_find_from(s, sep, 0);
    lemma_split_len(s.subrange(k + sep.len(), s.len() as int), sep);
}

/// A split has at least one piece.
proof fn lemma_split_len(s: Seq<char>, sep: Seq<char>)
    ensures
        split(s, sep).len() >= 1,
    decreases s.len(),
{
    if sep.len() > 0 {
        if let Some(k) = find(s, sep) {
            lemma_find_from(s, sep, 0);
            lemma_split_len(s.subrange(k + sep.len(), s.len() as int), sep);
        }
    }
}

/// `h` begins with `p`.
fn starts_with_str(h: &Vec<char>, p: &str) -> (b: bool)
    ensures
        b == starts_with(h@, p@),
{
    let pv = chars_of(p);
    crate::text::occurs_at_exec(h, &pv, 0)
}

/// Parses a Rust compiler error: `error[E0xxx]: message` and
/// `--> src/main.rs:10:5`.
pub fn parse_rust_error(error_text: &str) -> (r: Result<ParsedError, String>)
    requires
        rust_text_ok(error_text@),
    ensures
        r matches Ok(p) && p@ == rust_parsed(error_text@),
{
    let text = chars_of(error_text);
    let ls = lines_exec(&text);
    let mut st = Scan::start("Rust Error");
    let mut i: usize = 0;
    while i < ls.len()
        invariant
            i <= ls.len(),
            ls.deep_view() == lines(error_text@),
            rust_text_ok(error_text@),
            st@ == rust_scan(ls.deep_view().take(i as int)),
        decreases ls.len() - i,
    {
        assert(ls.deep_view()[i as int] =~= ls@[i as int]@);
        assert(!rust_line_panics(lines(error_text@)[i as int]));
        rust_step_exec(&mut st, &ls[i]);
        assert(ls.deep_view().take(i + 1).drop_last() =~= ls.deep_view().take(i as int));
        i += 1;
    }
    assert(ls.deep_view().take(ls.len() as int) =~= ls.deep_view());
    let p = st.into_parsed();
    Ok(p)
}

/// The frame that one traceback line describes, where it does.
fn py_frame_exec(line: &Vec<char>) -> (r: Option<StackFrame>)
    ensures
        r matches Some(f) ==> py_frame(line@) == Some(f@),
        r is None ==> py_frame(line@) is None,
{
    let s = match find_str(line, "File \"") {
        Some(s) => s,
        None => return None,
    };
    proof {
        lemma_find_from(line@, "File \""@, 0);
        reveal_strlit("File \"");
        assert("File \""@.len() == 6);
        assert(crate::text::occurs_at(line@, "File \""@, s as int));
    }
    let n = line.len();
    assert(s + 6 <= n);
    let start = s + 6;
    let e = match find_str_in_tail(line, start, "\"") {
        Some(e) => e,
        None => {
            proof {
                reveal_strlit("\"");
                assert("\""@ =~= seq!['"']);
            }
            return None;
        },
    };
    proof {
        reveal_strlit("\"");
        assert("\""@ =~= seq!['"']);
    }
    let file = string_of(line, s + 6, s + 6 + e);
    let line_num: u32 = match find_str(line, "line ") {
        Some(p) => {
            proof {
                lemma_find_from(line@, "line "@, 0);
                reveal_strlit("line ");
            }
            let rest = slice_vec(line, p + 5, line.len());
            let pieces = split_char(&rest, ',');
            assert(pieces.deep_view()[0] =~= pieces@[0]@);
            let first = trim_vec(&pieces[0]);
            match crate::text::parse_u32_all(&first) {
                Some(n) => n,
                None => 0,
            }
        },
        None => 0,
    };
    let function = match find_str(line, "in ") {
        Some(p) => {
            proof {
                lemma_find_from(line@, "in "@, 0);
                reveal_strlit("in ");
            }
            trimmed_string(line, p + 3, line.len())
        },
        None => "<module>".to_owned(),
    };
    Some(StackFrame { function, file, line: line_num, column: None })
}

/// Parses a Python traceback: `File "path.py", line 10, in function` lines
/// and a last line `XError: message`.
pub fn parse_python_error(error_text: &str) -> (r: Result<ParsedError, String>)
    ensures
        r matches Ok(p) && p@ == py_parsed(error_text@),
{
    let text = chars_of(error_text);
    let ls = lines_exec(&text);
    let mut stack_trace: Vec<StackFrame> = Vec::new();
    let mut i: usize = 0;
    while i < ls.len()
        invariant
            i <= ls.len(),
            ls.deep_view() == lines(error_text@),
            stack_trace@.map_values(|f: StackFrame| f@) == py_frames(ls.deep_view().take(i as int)),
        decreases ls.len() - i,
    {
        assert(ls.deep_view()[i as int] =~= ls@[i as int]@);
        assert(ls.deep_view().take(i + 1).drop_last() =~= ls.deep_view().take(i as int));
        let ghost before = stack_trace@;
        if let Some(frame) = py_frame_exec(&ls[i]) {
            stack_trace.push(frame);
            assert(stack_trace@.map_values(|f: StackFrame| f@) =~= before.map_values(
                |f: StackFrame| f@,
            ).push(frame@));
        }
        i += 1;
    }
    assert(ls.deep_view().take(ls.len() as int) =~= ls.deep_view());
    let mut error_type = "Python Error".to_owned();
    let mut message = String::new();
    if ls.len() > 0 {
        let last = &ls[ls.len() - 1];
        assert(ls.deep_view()[ls.len() - 1] =~= last@);
        if contains_str(last, "Error:") {
            if let Some(c) = find_char(last, ':') {
                error_type = trimmed_string(last, 0, c);
                message = trimmed_string(last, c + 1, last.len());
            }
        }
    }
    let ghost frames = stack_trace@.map_values(|f: StackFrame| f@);
    let (file_path, line) = if stack_trace.len() > 0 {
        assert(frames[0] == stack_trace@[0]@);
        (Some(stack_trace[0].file.clone()), Some(stack_trace[0].line))
    } else {
        (None, None)
    };
    let p = ParsedError {
        error_type,
        message,
        file_path,
        line,
        column: None,
        stack_trace,
        severity: ErrorSeverity::High,
    };
    assert(p@.stack_trace =~= frames);
    Ok(p)
}

/// Parses an error message with the parser its text calls for: TypeScript
/// or JavaScript, Rust, Python, or none, in that order of preference.
pub fn parse_error_text(error_text: String) -> (r: Result<ParsedError, String>)
    requires
        parse_error_ok(error_text@),
    ensures
        r matches Ok(p) && p@ == error_parsed(error_text@),
{
    let text = chars_of(error_text.as_str());
    if contains_str(&text, "TS") || contains_str(&text, "Error:") {
        return parse_typescript_error(error_text.as_str());
    }
    if contains_str(&text, "error[E") || contains_str(&text, "error:") {
        return parse_rust_error(error_text.as_str());
    }
    if contains_str(&text, "Traceback") || contains_str(&text, "File \"") {
        return parse_python_error(error_text.as_str());
    }
    let p = ParsedError {
        error_type: "Unknown".to_owned(),
        message: error_text,
        file_path: None,
        line: None,
        column: None,
        stack_trace: Vec::new(),
        severity: ErrorSeverity::Medium,
    };
    assert(p@.stack_trace =~= Seq::<FrameView>::empty());
    Ok(p)
}

/// The JSON text in a model's answer: from the first `'['` to the last
/// `']'` where both exist, else from the first `'{'` to the last `'}'`.
pub open spec fn json_span(text: Seq<char>) -> Option<Seq<char>> {
    match (find(text, seq!['[']), rfind(text, seq![']'])) {
        (Some(a), Some(b)) => Some(text.subrange(a, b + 1)),
        _ => match (find(text, seq!['{']), rfind(text, seq!['}'])) {
            (Some(a), Some(b)) => Some(text.subrange(a, b + 1)),
            _ => None,
        },
    }
}

/// `json_span` is well defined: the span it takes never ends before it
/// starts.
pub open spec fn json_span_ok(text: Seq<char>) -> bool {
    &&& (find(text, seq!['[']), rfind(text, seq![']'])) matches (Some(a), Some(b)) ==> a <= b + 1
    &&& (find(text, seq!['{']), rfind(text, seq!['}'])) matches (Some(a), Some(b)) ==> a <= b + 1
}

/// Cuts the JSON out of a model's answer (`text[first '['..=last ']']`, or
/// else `text[first '{'..=last '}']`); an error where neither pair exists.
pub fn extract_json(text: &str) -> (r: Result<String, String>)
    requires
        json_span_ok(text@),
    ensures
        json_span(text@) matches Some(j) ==> (r matches Ok(s) && s@ == j),
        json_span(text@) is None ==> (r matches Err(e) && e@ == "No JSON found in response"@),
{
    let v = chars_of(text);
    if let Some(a) = find_char(&v, '[') {
        if let Some(b) = rfind_char(&v, ']') {
            return Ok(string_of(&v, a, b + 1));
        }
    }
    if let Some(a) = find_char(&v, '{') {
        if let Some(b) = rfind_char(&v, '}') {
            return Ok(string_of(&v, a, b + 1));
        }
    }
    Err("No JSON found in response".to_owned())
}

/// The last position of the character `c` in `h`.
fn rfind_char(h: &Vec<char>, c: char) -> (r: Option<usize>)
    ensures
        r matches Some(i) ==> rfind(h@, seq![c]) == Some(i as int) && i < h.len(),
        r is None ==> rfind(h@, seq![c]) is None,
{
    let pv: Vec<char> = vec![c];
    assert(pv@ =~= seq![c]);
    let r = crate::text::rfind_vec(h, &pv);
    proof {
        crate::text::lemma_rfind_upto(h@, seq![c], h@.len() - 1);
    }
    r
}

// ---------------------------------------------------------------------------
// Which texts the parsers take
// ---------------------------------------------------------------------------

/// Whether a line makes the TypeScript scan panic.
fn ts_line_panics_exec(line: &Vec<char>) -> (r: bool)
    ensures
        r == ts_line_panics(line@),
{
    match (find_str(line, "): "), find_char(line, '(')) {
        (Some(colon), Some(paren)) => paren > colon,
        _ => false,
    }
}

/// Whether a line makes the Rust scan panic.
fn rust_line_panics_exec(line: &Vec<char>) -> (r: bool)
    ensures
        r == rust_line_panics(line@),
{
    let (a, b) = crate::text::trim_bounds(line, 0, line.len());
    assert(line@.subrange(0, line@.len() as int) =~= line@);
    let t = slice_vec(line, a, b);
    if !starts_with_str(&t, "error") {
        return false;
    }
    match (find_char(line, '['), find_char(line, ']')) {
        (Some(open), Some(close)) => close < open,
        _ => false,
    }
}

/// Whether the TypeScript parser takes `text` (no line of it would make
/// it panic).
pub fn typescript_text_ok(text: &str) -> (r: bool)
    ensures
        r == ts_text_ok(text@),
{
    let v = chars_of(text);
    let ls = lines_exec(&v);
    let mut i: usize = 0;
    while i < ls.len()
        invariant
            i <= ls.len(),
            ls.deep_view() == lines(text@),
            forall|j: int| 0 <= j < i ==> !ts_line_panics(#[trigger] lines(text@)[j]),
        decreases ls.len() - i,
    {
        assert(ls.deep_view()[i as int] == ls@[i as int]@);
        if ts_line_panics_exec(&ls[i]) {
            return false;
        }
        i += 1;
    }
    true
}

/// Whether the Rust parser takes `text` (no line of it would make it
/// panic).
pub fn rust_text_ok_exec(text: &str) -> (r: bool)
    ensures
        r == rust_text_ok(text@),
{
    let v = chars_of(text);
    let ls = lines_exec(&v);
    let mut i: usize = 0;
    while i < ls.len()
        invariant
            i <= ls.len(),
            ls.deep_view() == lines(text@),
            forall|j: int| 0 <= j < i ==> !rust_line_panics(#[trigger] lines(text@)[j]),
        decreases ls.len() - i,
    {
        assert(ls.deep_view()[i as int] == ls@[i as int]@);
        if rust_line_panics_exec(&ls[i]) {
            return false;
        }
        i += 1;
    }
    true
}

/// Whether the parser that `text` calls for takes it.
pub fn error_text_ok(text: &str) -> (r: bool)
    ensures
        r == parse_error_ok(text@),
{
    let v = chars_of(text);
    if contains_str(&v, "TS") || contains_str(&v, "Error:") {
        typescript_text_ok(text)
    } else if contains_str(&v, "error[E") || contains_str(&v, "error:") {
        rust_text_ok_exec(text)
    } else {
        true
    }
}

/// Whether the JSON span of `text` is well defined (`extract_json` takes
/// it).
pub fn json_span_ok_exec(text: &str) -> (r: bool)
    ensures
        r == json_span_ok(text@),
{
    let v = chars_of(text);
    let squares = match (find_char(&v, '['), rfind_char(&v, ']')) {
        (Some(a), Some(b)) => a <= b + 1,
        _ => true,
    };
    let braces = match (find_char(&v, '{'), rfind_char(&v, '}')) {
        (Some(a), Some(b)) => a <= b + 1,
        _ => true,
    };
    squares && braces
}

// ---------------------------------------------------------------------------
// Prompts
// ---------------------------------------------------------------------------

/// The prompt that asks for fixes of an error: its type, message and file
/// (where known), then the source code (where given).
pub open spec fn fix_prompt_text(e: ParsedErrorView, source_code: Option<Seq<char>>) -> Seq<char> {
    "Analyze this error and provide 2-3 specific fix suggestions.\n\nError Type: "@ + e.error_type
        + "\nMessage: "@ + e.message + "\n"@ + (match e.file_path {
        Some(f) => "File: "@ + f + "\n"@,
        None => Seq::empty(),
    }) + (match source_code {
        Some(c) => "\n\nRelevant source code:\n```\n"@ + c + "\n```"@,
        None => Seq::empty(),
    }) + FIX_PROMPT_TAIL@
}

/// The part of the fix prompt after the error.
pub const FIX_PROMPT_TAIL: &'static str = "

Provide solutions in JSON format:
[
  {
    \"title\": \"Brief title\",
    \"description\": \"Explanation of the fix\",
    \"fix_code\": \"Code snippet showing the fix (if applicable)\",
    \"confidence\": 0.9,
    \"steps\": [\"Step 1\", \"Step 2\"]
  }
]";

/// Builds the prompt that asks the model for fixes of an error.
pub fn fix_prompt(error: &ParsedError, source_code: Option<&str>) -> (r: String)
    ensures
        r@ == fix_prompt_text(error@, match source_code {
            Some(c) => Some(c@),
            None => None,
        }),
{
    let mut r = "Analyze this error and provide 2-3 specific fix suggestions.\n\nError Type: ".to_owned();
    append_str(&mut r, error.error_type.as_str());
    append_str(&mut r, "\nMessage: ");
    append_str(&mut r, error.message.as_str());
    append_str(&mut r, "\n");
    let ghost mid = r@;
    if let Some(f) = &error.file_path {
        append_str(&mut r, "File: ");
        append_str(&mut r, f.as_str());
        append_str(&mut r, "\n");
    }
    let ghost mid2 = r@;
    if let Some(c) = source_code {
        append_str(&mut r, "\n\nRelevant source code:\n```\n");
        append_str(&mut r, c);
        append_str(&mut r, "\n```");
    }
    let ghost mid3 = r@;
    append_str(&mut r, FIX_PROMPT_TAIL);
    proof {
        let fp: Seq<char> = match error.file_path.deep_view() {
            Some(f) => "File: "@ + f + "\n"@,
            None => Seq::empty(),
        };
        let sc: Seq<char> = match source_code {
            Some(c) => "\n\nRelevant source code:\n```\n"@ + c@ + "\n```"@,
            None => Seq::empty(),
        };
        assert(mid2 =~= mid + fp);
        assert(mid3 =~= mid2 + sc);
    }
    r
}

/// One line of a stack trace as the model is shown it: its number from
/// one, the function, and where it is.
pub open spec fn trace_line(i: int, f: FrameView) -> Seq<char> {
    decimal((i + 1) as nat) + ". "@ + f.function + " at "@ + f.file + ":"@ + decimal(f.line as nat)
}

/// The lines of a stack trace as the model is shown it.
pub open spec fn trace_lines(frames: Seq<FrameView>) -> Seq<Seq<char>> {
    frames.map(|i: int, f: FrameView| trace_line(i, f))
}

/// The prompt that asks for the root cause of a stack trace.
pub open spec fn stack_trace_prompt_text(frames: Seq<FrameView>) -> Seq<char> {
    "Analyze this stack trace and identify the root cause of the error.\n\nStack Trace:\n"@ + join(
        trace_lines(frames),
        "\n"@,
    ) + STACK_TRACE_TAIL@
}

/// The stack-trace prompt shows every frame, numbered from one in the
/// order of the trace, with its function, file and line.
pub proof fn law_stack_trace_prompt_frames(frames: Seq<FrameView>, k: int)
    requires
        0 <= k < frames.len(),
    ensures
        contains(
            stack_trace_prompt_text(frames),
            decimal((k + 1) as nat) + ". "@ + frames[k].function + " at "@ + frames[k].file + ":"@
                + decimal(frames[k].line as nat),
        ),
{
    law_join_holds_parts(trace_lines(frames), "\n"@, k);
    lemma_contains_within(
        "Analyze this stack trace and identify the root cause of the error.\n\nStack Trace:\n"@,
        join(trace_lines(frames), "\n"@),
        STACK_TRACE_TAIL@,
        trace_lines(frames)[k],
    );
}

/// The part of the stack-trace prompt after the trace.
pub const STACK_TRACE_TAIL: &'static str = "

Provide analysis in JSON format:
{
  \"root_cause_frame\": 0,
  \"explanation\": \"Why this frame is the root cause\",
  \"error_path\": \"How the error propagated\",
  \"recommendations\": [\"Fix suggestion 1\", \"Fix suggestion 2\"]
}";

/// Builds the prompt that asks the model for the root cause of a stack
/// trace.
pub fn stack_trace_prompt(frames: &Vec<StackFrame>) -> (r: String)
    ensures
        r@ == stack_trace_prompt_text(frames@.map_values(|f: StackFrame| f@)),
{
    let ghost fv = frames@.map_values(|f: StackFrame| f@);
    let mut lines: Vec<String> = Vec::new();
    let mut i: usize = 0;
    while i < frames.len()
        invariant
            i <= frames.len(),
            fv == frames@.map_values(|f: StackFrame| f@),
            lines.deep_view() =~= trace_lines(fv.take(i as int)),
        decreases frames.len() - i,
    {
        let f = &frames[i];
        let mut line = String::new();
        push_decimal(&mut line, (i + 1) as u64);
        append_str(&mut line, ". ");
        append_str(&mut line, f.function.as_str());
        append_str(&mut line, " at ");
        append_str(&mut line, f.file.as_str());
        append_str(&mut line, ":");
        push_decimal(&mut line, f.line as u64);
        let ghost before = lines.deep_view();
        lines.push(line);
        proof {
            assert(fv.take(i + 1) =~= fv.take(i as int).push(fv[i as int]));
            assert(line@ =~= trace_line(i as int, fv[i as int]));
            assert(lines.deep_view() =~= before.push(line@));
            assert(trace_lines(fv.take(i + 1)) =~= trace_lines(fv.take(i as int)).push(trace_line(i as int, fv[i as int])));
        }
        i += 1;
    }
    assert(fv.take(frames.len() as int) =~= fv);
    let mut r = "Analyze this stack trace and identify the root cause of the error.\n\nStack Trace:\n".to_owned();
    let joined = crate::chat::join_strings(&lines, "\n");
    append_str(&mut r, joined.as_str());
    append_str(&mut r, STACK_TRACE_TAIL);
    r
}

} // verus!
