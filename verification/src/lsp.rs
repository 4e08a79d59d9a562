//! Language servers: which program serves which language, and the
//! `Content-Length` framing of the messages exchanged with it.

use vstd::prelude::*;
use vstd::string::StringSliceAdditionalSpecFns;

use crate::text::{
    append_str, chars_of, decimal, eq_str, int_error_message, int_error_text, is_digit, is_ws,
    lemma_decimal, lemma_parse_decimal, lemma_trim_end_at, lemma_trim_start_at, parse_int,
    parse_int_exec, push_decimal, starts_with, trim, trim_bounds, IntErrorKind,
};

verus! {

broadcast use vstd::string::group_string_axioms;

/// A language server and how it was started.
#[derive(Debug, Clone)]
pub struct LSPServer {
    pub language: String,
    pub command: String,
    pub args: Vec<String>,
    pub root_uri: String,
    pub initialized: bool,
}

/// A position in a document: line and character, both from zero.
#[derive(Debug, Clone, Copy, PartialEq, Eq, Structural)]
pub struct Position {
    pub line: u32,
    pub character: u32,
}

/// A range of a document.
#[derive(Debug, Clone, Copy, PartialEq, Eq, Structural)]
pub struct Range {
    pub start: Position,
    pub end: Position,
}

/// A range in a named document.
#[derive(Debug, Clone)]
pub struct Location {
    pub uri: String,
    pub range: Range,
}

/// One completion offered by a server.
#[derive(Debug, Clone)]
pub struct CompletionItem {
    pub label: String,
    pub kind: u32,
    pub detail: Option<String>,
    pub documentation: Option<String>,
    pub insert_text: Option<String>,
}

/// What a server shows on hover.
#[derive(Debug, Clone)]
pub struct Hover {
    pub contents: String,
    pub range: Option<Range>,
}

/// A problem a server reports; severity 1 is an error, 2 a warning, 3 an
/// information and 4 a hint.
#[derive(Debug, Clone)]
pub struct Diagnostic {
    pub range: Range,
    pub severity: u32,
    pub message: String,
    pub source: Option<String>,
}

/// The program that serves `lang` and its arguments, for the languages
/// that have one.
pub open spec fn lsp_command(lang: Seq<char>) -> Option<(Seq<char>, Seq<Seq<char>>)> {
    if lang == "rust"@ {
        Some(("rust-analyzer"@, Seq::empty()))
    } else if lang == "typescript"@ || lang == "javascript"@ {
        Some(("typescript-language-server"@, seq!["--stdio"@]))
    } else if lang == "python"@ {
        Some(("pylsp"@, Seq::empty()))
    } else if lang == "go"@ {
        Some(("gopls"@, Seq::empty()))
    } else if lang == "java"@ {
        Some(("jdtls"@, Seq::empty()))
    } else if lang == "cpp"@ || lang == "c"@ {
        Some(("clangd"@, Seq::empty()))
    } else {
        None
    }
}

/// The program that serves `language` and its arguments; an error naming
/// the language where none does.
pub fn get_lsp_command(language: &str) -> (r: Result<(String, Vec<String>), String>)
    ensures
        match lsp_command(language@) {
            Some(cmd) => r matches Ok(p) && p.0@ == cmd.0 && p.1.deep_view() == cmd.1,
            None => r matches Err(e) && e@ == "Unsupported language: "@ + language@,
        },
{
    let l = chars_of(language);
    let no_args: Vec<String> = Vec::new();
    assert(no_args.deep_view() =~= Seq::<Seq<char>>::empty());
    if eq_str(&l, "rust") {
        Ok(("rust-analyzer".to_owned(), no_args))
    } else if eq_str(&l, "typescript") || eq_str(&l, "javascript") {
        let mut args: Vec<String> = Vec::new();
        args.push("--stdio".to_owned());
        assert(args.deep_view() =~= seq!["--stdio"@]);
        Ok(("typescript-language-server".to_owned(), args))
    } else if eq_str(&l, "python") {
        Ok(("pylsp".to_owned(), no_args))
    } else if eq_str(&l, "go") {
        Ok(("gopls".to_owned(), no_args))
    } else if eq_str(&l, "java") {
        Ok(("jdtls".to_owned(), no_args))
    } else if eq_str(&l, "cpp") || eq_str(&l, "c") {
        Ok(("clangd".to_owned(), no_args))
    } else {
        let mut e = "Unsupported language: ".to_owned();
        append_str(&mut e, language);
        Err(e)
    }
}

/// The header line that announces a body of `n` bytes, with its line end.
pub open spec fn header_line(n: nat) -> Seq<char> {
    "Content-Length: "@ + decimal(n) + "\r\n"@
}

/// A message as sent to a server: the header line, an empty line, and the
/// body, whose length in bytes is `n`.
pub open spec fn framed(content: Seq<char>, n: nat) -> Seq<char> {
    header_line(n) + "\r\n"@ + content
}

/// Frames `content` for a language server: its length in UTF-8 bytes in a
/// `Content-Length` header, an empty line, then the content.
pub fn frame_message(content: &str) -> (r: String)
    ensures
        r@ == framed(content@, content.len() as nat),
{
    let mut r = "Content-Length: ".to_owned();
    push_decimal(&mut r, content.len() as u64);
    append_str(&mut r, "\r\n\r\n");
    append_str(&mut r, content);
    proof {
        reveal_strlit("\r\n\r\n");
        reveal_strlit("\r\n");
        assert(r@ =~= framed(content@, content.len() as nat));
    }
    r
}

/// The body length that a header line announces: the line trimmed must
/// begin with `Content-Length: `, and the rest must read as a `usize`;
/// otherwise the error the reader reports.
pub open spec fn content_length(header: Seq<char>) -> Result<nat, Seq<char>> {
    let t = trim(header);
    if !starts_with(t, "Content-Length: "@) {
        Err("Invalid header"@)
    } else {
        match parse_int(t.subrange(16, t.len() as int), usize::MAX as nat) {
            Ok(n) => Ok(n),
            Err(k) => Err("Invalid content length: "@ + int_error_text(k)),
        }
    }
}

/// Reads the body length from a header line of a server's reply.
pub fn parse_content_length(header: &str) -> (r: Result<usize, String>)
    ensures
        match content_length(header@) {
            Ok(n) => r matches Ok(m) && m == n,
            Err(e) => r matches Err(f) && f@ == e,
        },
{
    let v = chars_of(header);
    let (a, b) = trim_bounds(&v, 0, v.len());
    proof {
        reveal_strlit("Content-Length: ");
        assert(v@.subrange(0, v@.len() as int) =~= v@);
    }
    let ghost t = v@.subrange(a as int, b as int);
    let prefix = chars_of("Content-Length: ");
    let mut starts = b - a >= 16;
    let mut k: usize = 0;
    while starts && k < 16
        invariant
            a <= b <= v.len(),
            prefix@ == "Content-Length: "@,
            "Content-Length: "@.len() == 16,
            t == v@.subrange(a as int, b as int),
            k <= 16,
            starts ==> b - a >= 16,
            starts ==> forall|j: int| 0 <= j < k ==> t[j] == prefix@[j],
            !starts ==> !starts_with(t, "Content-Length: "@),
        decreases 16 - k + (if starts { 1int } else { 0int }),
    {
        assert(t[k as int] == v@[a + k]);
        if v[a + k] != prefix[k] {
            assert(!starts_with(t, "Content-Length: "@)) by {
                if starts_with(t, "Content-Length: "@) {
                    assert(t.subrange(0, 16)[k as int] == t[k as int]);
                }
            }
            starts = false;
        } else {
            k += 1;
        }
    }
    if !starts {
        return Err("Invalid header".to_owned());
    }
    assert(t.subrange(0, 16) =~= "Content-Length: "@);
    assert(t == trim(header@));
    assert(starts_with(t, "Content-Length: "@));
    let max: u64 = usize::MAX as u64;
    assert(max == usize::MAX);
    match parse_int_exec(&v, a + 16, b, max) {
        Ok(n) => {
            assert(v@.subrange(a + 16, b as int) =~= t.subrange(16, t.len() as int));
            assert(content_length(header@) == Ok::<nat, Seq<char>>(n as nat));
            Ok(n as usize)
        },
        Err(kind) => {
            assert(v@.subrange(a + 16, b as int) =~= t.subrange(16, t.len() as int));
            let mut e = "Invalid content length: ".to_owned();
            append_str(&mut e, int_error_message(kind));
            Err(e)
        },
    }
}

/// Reading the header line of a framed message gives back the length it
/// was framed with.
pub proof fn law_content_length_round_trip(content: Seq<char>, n: nat)
    requires
        n <= usize::MAX,
    ensures
        framed(content, n) == header_line(n) + "\r\n"@ + content,
        content_length(header_line(n)) == Ok::<nat, Seq<char>>(n),
{
    reveal_strlit("Content-Length: ");
    reveal_strlit("\r\n");
    lemma_decimal(n);
    lemma_parse_decimal(n, usize::MAX as nat);
    let d = decimal(n);
    let body = "Content-Length: "@ + d;
    let h = header_line(n);
    assert(h =~= body + "\r\n"@);
    assert(!is_ws(h[0]));
    lemma_trim_start_at(h, 0);
    assert(h.subrange(0, h.len() as int) =~= h);
    assert(is_digit(d[d.len() - 1]));
    assert(h[body.len() - 1] == d[d.len() - 1]);
    assert forall|j: int| body.len() <= j < h.len() implies is_ws(#[trigger] h[j]) by {}
    lemma_trim_end_at(h, body.len() as int);
    assert(trim(h) =~= body);
    assert(body.subrange(0, 16) =~= "Content-Length: "@);
    assert(body.subrange(16, body.len() as int) =~= d);
}

} // verus!
