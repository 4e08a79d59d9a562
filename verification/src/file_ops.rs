//! File operations: path checks, the sensitive-path blacklist, and language
//! detection from file names.

use vstd::prelude::*;

use crate::chat::copy_strings;
use crate::text::{all_ascii, ascii_lowered};
use crate::email::{base64_decode, base64_decoding, base64_encode, base64_encoding, decode_error_text};
use crate::text::starts_with;
use crate::text::{
    append_str, chars_of, contains, contains_str, find, lowercase, lookup, lookup_exec, pairs_view,
    push_decimal, decimal, rfind, rfind_vec, split, split_char, string_of, to_lowercase,
};

verus! {

broadcast use vstd::string::group_string_axioms;

/// File metadata.
#[derive(Debug, Clone, Copy)]
pub struct FileMetadata {
    pub size: u64,
    pub is_file: bool,
    pub is_dir: bool,
    pub created: i64,
    pub modified: i64,
    pub readonly: bool,
}

/// One entry of a directory listing.
#[derive(Debug)]
pub struct DirEntry {
    pub name: String,
    pub path: String,
    pub is_file: bool,
    pub is_dir: bool,
    pub size: u64,
    pub modified: i64,
}

/// The operations whose permission is checked.
#[derive(Debug, Clone, Copy, PartialEq, Eq, Structural)]
pub enum FileOperation {
    Read,
    Write,
    Delete,
    Execute,
}

/// The permissions that guard file operations.
#[derive(Debug, Clone, Copy, PartialEq, Eq, Structural)]
pub enum PermissionType {
    FileRead,
    FileWrite,
    FileDelete,
    FileExecute,
}

/// A dangerous operation awaiting confirmation.
#[derive(Debug)]
pub struct DangerousOpEvent {
    pub operation: String,
    pub file_count: usize,
    pub paths: Vec<String>,
}

/// A file's content with what describes it for a model's context.
#[derive(Debug)]
pub struct FileContextContent {
    pub content: String,
    pub size: u64,
    pub line_count: usize,
    pub language: Option<String>,
    pub excerpt: String,
}

/// A file of the workspace.
#[derive(Debug)]
pub struct WorkspaceFile {
    pub path: String,
    pub name: String,
    pub size: u64,
    pub modified: i64,
    pub language: Option<String>,
}

/// The name of an operation.
pub open spec fn operation_name(op: FileOperation) -> Seq<char> {
    match op {
        FileOperation::Read => "read"@,
        FileOperation::Write => "write"@,
        FileOperation::Delete => "delete"@,
        FileOperation::Execute => "execute"@,
    }
}

impl FileOperation {
    /// The operation's name.
    pub fn as_str(&self) -> (r: &'static str)
        ensures
            r@ == operation_name(*self),
    {
        match self {
            FileOperation::Read => "read",
            FileOperation::Write => "write",
            FileOperation::Delete => "delete",
            FileOperation::Execute => "execute",
        }
    }

    /// The permission that guards the operation.
    pub fn to_permission_type(&self) -> (r: PermissionType)
        ensures
            r == (match *self {
                FileOperation::Read => PermissionType::FileRead,
                FileOperation::Write => PermissionType::FileWrite,
                FileOperation::Delete => PermissionType::FileDelete,
                FileOperation::Execute => PermissionType::FileExecute,
            }),
    {
        match self {
            FileOperation::Read => PermissionType::FileRead,
            FileOperation::Write => PermissionType::FileWrite,
            FileOperation::Delete => PermissionType::FileDelete,
            FileOperation::Execute => PermissionType::FileExecute,
        }
    }
}

/// The audit-log type of an operation: `"FILE_"` and the operation's name
/// in upper case.
pub open spec fn audit_type_name(op: FileOperation) -> Seq<char> {
    match op {
        FileOperation::Read => "FILE_READ"@,
        FileOperation::Write => "FILE_WRITE"@,
        FileOperation::Delete => "FILE_DELETE"@,
        FileOperation::Execute => "FILE_EXECUTE"@,
    }
}

/// The type under which an operation is written to the audit log.
pub fn audit_operation_type(op: FileOperation) -> (r: String)
    ensures
        r@ == audit_type_name(op),
{
    let mut r = String::new();
    match op {
        FileOperation::Read => append_str(&mut r, "FILE_READ"),
        FileOperation::Write => append_str(&mut r, "FILE_WRITE"),
        FileOperation::Delete => append_str(&mut r, "FILE_DELETE"),
        FileOperation::Execute => append_str(&mut r, "FILE_EXECUTE"),
    }
    r
}

/// Whether an operation on `path` may go ahead, given whether the permission
/// manager allows it there: never on a blacklisted path, and otherwise only
/// where it is allowed (an operation that would need a prompt is refused).
pub fn permission_outcome(path: &str, allowed: bool) -> (r: bool)
    ensures
        r == (!blacklisted(path@) && allowed),
{
    if is_blacklisted_path(path) {
        false
    } else {
        allowed
    }
}

/// From how many files on an operation is dangerous.
pub const DANGEROUS_FILE_COUNT: usize = 10;

/// The confirmation an operation on `paths` waits for: none for fewer than
/// 10 files, which go ahead; otherwise the event that asks for it, naming
/// the operation, the number of files and the files.
pub fn dangerous_operation_event(operation: &str, paths: &Vec<String>) -> (r: Option<
    DangerousOpEvent,
>)
    ensures
        (r is Some) == (paths.len() >= DANGEROUS_FILE_COUNT),
        r matches Some(e) ==> e.operation@ == operation@ && e.file_count == paths.len()
            && e.paths.deep_view() == paths.deep_view(),
{
    if paths.len() >= DANGEROUS_FILE_COUNT {
        let mut name = String::new();
        append_str(&mut name, operation);
        Some(DangerousOpEvent { operation: name, file_count: paths.len(), paths: copy_strings(paths) })
    } else {
        None
    }
}

/// The text form of a binary file's content: its standard padded Base64;
/// decoding it gives the bytes back.
pub fn encode_binary(data: &[u8]) -> (r: String)
    requires
        data@.len() <= 3 * (usize::MAX / 4),
    ensures
        r@ == base64_encoding(data@),
        base64_decoding(r@) == Some(data@),
{
    base64_encode(data)
}

/// The bytes a binary file's text form holds, or `"Failed to decode
/// base64: <error>"` where the text is not standard padded Base64.
pub fn decode_binary(text: &str) -> (r: Result<Vec<u8>, String>)
    ensures
        base64_decoding(text@) matches Some(b) ==> (r matches Ok(v) && v@ == b),
        base64_decoding(text@) is None ==> (r matches Err(e) && starts_with(
            e@,
            "Failed to decode base64: "@,
        )),
{
    match base64_decode(text) {
        Ok(v) => Ok(v),
        Err(e) => {
            let mut msg = String::new();
            append_str(&mut msg, "Failed to decode base64: ");
            let ghost prefix = msg@;
            append_str(&mut msg, decode_error_text(&e).as_str());
            assert(msg@.subrange(0, prefix.len() as int) =~= prefix);
            Err(msg)
        },
    }
}

/// The longest path accepted, in bytes.
pub const MAX_PATH_BYTES: usize = 4096;

/// Why a path is refused, if it is: empty, longer than 4096 bytes, holding
/// `".."`, or holding a NUL character, checked in that order.
pub open spec fn path_problem(path: &str) -> Option<Seq<char>> {
    if path@.len() == 0 {
        Some("Path cannot be empty"@)
    } else if path.len() > 4096 {
        Some("Path too long: "@ + decimal(path.len() as nat) + " characters. Maximum is 4096"@)
    } else if contains(path@, ".."@) {
        Some("Path contains directory traversal (..) which is not allowed for security reasons"@)
    } else if contains(path@, seq!['\0']) {
        Some("Path contains null bytes which is not allowed"@)
    } else {
        None
    }
}

/// Checks a path for security problems: refuses empty paths, paths longer
/// than 4096 bytes, directory traversal (`".."`) and NUL characters.
pub fn validate_path_security(path: &str) -> (r: Result<(), String>)
    ensures
        path_problem(path) is None <==> r is Ok,
        path_problem(path) matches Some(m) ==> (r matches Err(e) && e@ == m),
{
    if path.is_empty() {
        return Err("Path cannot be empty".to_owned());
    }
    let n = path.len();
    if n > MAX_PATH_BYTES {
        let mut msg = "Path too long: ".to_owned();
        push_decimal(&mut msg, n as u64);
        append_str(&mut msg, " characters. Maximum is 4096");
        return Err(msg);
    }
    let v = chars_of(path);
    if contains_str(&v, "..") {
        return Err(
            "Path contains directory traversal (..) which is not allowed for security reasons".to_owned(),
        );
    }
    if contains_str(&v, "\0") {
        proof {
            reveal_strlit("\0");
            assert("\0"@ =~= seq!['\0']);
        }
        return Err("Path contains null bytes which is not allowed".to_owned());
    }
    proof {
        reveal_strlit("\0");
        assert("\0"@ =~= seq!['\0']);
    }
    Ok(())
}

/// The sensitive locations that file operations never touch.
pub open spec fn blacklist() -> Seq<Seq<char>> {
    seq![
        "c:\\windows\\system32"@,
        "c:\\windows\\syswow64"@,
        "c:\\program files"@,
        "c:\\program files (x86)"@,
        "/windows/system32"@,
        "/program files"@,
        ".ssh"@,
        ".aws"@,
        ".gnupg"@,
        ".env"@,
        "credentials"@,
        "private"@,
        "/etc/passwd"@,
        "/etc/shadow"@,
    ]
}

/// `path`, lower-cased, holds some blacklisted location, lower-cased.
pub open spec fn blacklisted(path: Seq<char>) -> bool {
    exists|i: int| 0 <= i < blacklist().len() && contains(lowercase(path), lowercase(#[trigger] blacklist()[i]))
}

/// An ASCII `path`, with its ASCII letters lower-cased, holds some
/// blacklisted location.
pub open spec fn blacklisted_ascii(path: Seq<char>) -> bool {
    exists|i: int| 0 <= i < blacklist().len() && contains(ascii_lowered(path), #[trigger] blacklist()[i])
}

/// The blacklisted locations are ASCII and already in lower case.
pub proof fn lemma_blacklist_lower_ascii(i: int)
    requires
        0 <= i < blacklist().len(),
    ensures
        all_ascii(blacklist()[i]),
        ascii_lowered(blacklist()[i]) == blacklist()[i],
{
    reveal_strlit("c:\\windows\\system32");
    reveal_strlit("c:\\windows\\syswow64");
    reveal_strlit("c:\\program files");
    reveal_strlit("c:\\program files (x86)");
    reveal_strlit("/windows/system32");
    reveal_strlit("/program files");
    reveal_strlit(".ssh");
    reveal_strlit(".aws");
    reveal_strlit(".gnupg");
    reveal_strlit(".env");
    reveal_strlit("credentials");
    reveal_strlit("private");
    reveal_strlit("/etc/passwd");
    reveal_strlit("/etc/shadow");
    let b = blacklist()[i];
    assert(ascii_lowered(b) =~= b);
}

/// Whether a path falls within a sensitive system location, ignoring case.
pub fn is_blacklisted_path(path: &str) -> (r: bool)
    ensures
        r == blacklisted(path@),
        all_ascii(path@) ==> r == blacklisted_ascii(path@),
{
    let entries: Vec<&str> = vec![
        "c:\\windows\\system32",
        "c:\\windows\\syswow64",
        "c:\\program files",
        "c:\\program files (x86)",
        "/windows/system32",
        "/program files",
        ".ssh",
        ".aws",
        ".gnupg",
        ".env",
        "credentials",
        "private",
        "/etc/passwd",
        "/etc/shadow",
    ];
    assert(entries@.map_values(|e: &str| e@) =~= blacklist());
    let path_lower = to_lowercase(path);
    let lower = chars_of(path_lower.as_str());
    let mut i: usize = 0;
    while i < entries.len()
        invariant
            i <= entries.len(),
            entries@.map_values(|e: &str| e@) == blacklist(),
            lower@ == lowercase(path@),
            all_ascii(path@) ==> lower@ == ascii_lowered(path@),
            forall|j: int| 0 <= j < i ==> !contains(lowercase(path@), lowercase(#[trigger] blacklist()[j])),
            forall|j: int| 0 <= j < i ==> lowercase(#[trigger] blacklist()[j]) == blacklist()[j],
        decreases entries.len() - i,
    {
        let blocked = to_lowercase(entries[i]);
        assert(blacklist()[i as int] == entries@[i as int]@);
        proof {
            lemma_blacklist_lower_ascii(i as int);
        }
        if contains_str(&lower, blocked.as_str()) {
            return true;
        }
        i += 1;
    }
    proof {
        if all_ascii(path@) && blacklisted_ascii(path@) {
            let k = choose|k: int| 0 <= k < blacklist().len() && contains(ascii_lowered(path@), #[trigger] blacklist()[k]);
            assert(lowercase(blacklist()[k]) == blacklist()[k]);
        }
    }
    false
}

// ---------------------------------------------------------------------------
// Language detection
// ---------------------------------------------------------------------------

/// The last component of a `'/'`-separated path (`Path::file_name`): empty
/// and `"."` components are skipped, and a path that ends in `".."` has
/// none.
pub open spec fn file_name(path: Seq<char>) -> Option<Seq<char>> {
    let comps = split(path, seq!['/']).filter(|c: Seq<char>| c.len() > 0 && c != "."@);
    if comps.len() == 0 || comps.last() == ".."@ {
        None
    } else {
        Some(comps.last())
    }
}

/// The extension of a file name (`Path::extension`): what follows its last
/// `'.'`, where that `'.'` is not its first character.
pub open spec fn extension_of_name(name: Seq<char>) -> Option<Seq<char>> {
    match rfind(name, seq!['.']) {
        Some(k) => if k == 0 {
            None
        } else {
            Some(name.subrange(k + 1, name.len() as int))
        },
        None => None,
    }
}

/// The extension of a path's file name.
pub open spec fn path_extension(path: Seq<char>) -> Option<Seq<char>> {
    match file_name(path) {
        Some(n) => extension_of_name(n),
        None => None,
    }
}

/// Programming languages by lower-case file extension.
pub open spec fn extension_languages() -> Seq<(Seq<char>, Seq<char>)> {
    seq![
        ("rs"@, "rust"@), ("js"@, "javascript"@), ("ts"@, "typescript"@), ("tsx"@, "typescript"@),
        ("jsx"@, "javascript"@), ("py"@, "python"@), ("go"@, "go"@), ("java"@, "java"@),
        ("cpp"@, "cpp"@), ("cc"@, "cpp"@), ("cxx"@, "cpp"@), ("c"@, "c"@), ("h"@, "cpp"@),
        ("hpp"@, "cpp"@), ("cs"@, "csharp"@), ("rb"@, "ruby"@), ("php"@, "php"@),
        ("swift"@, "swift"@), ("kt"@, "kotlin"@), ("scala"@, "scala"@), ("sh"@, "bash"@),
        ("bash"@, "bash"@), ("ps1"@, "powershell"@), ("sql"@, "sql"@), ("html"@, "html"@),
        ("htm"@, "html"@), ("css"@, "css"@), ("scss"@, "scss"@), ("sass"@, "scss"@),
        ("json"@, "json"@), ("xml"@, "xml"@), ("yaml"@, "yaml"@), ("yml"@, "yaml"@),
        ("toml"@, "toml"@), ("md"@, "markdown"@), ("markdown"@, "markdown"@), ("txt"@, "text"@),
    ]
}

/// The language of a path: by its file name's extension, lower-cased.
pub open spec fn path_language(path: Seq<char>) -> Option<Seq<char>> {
    match path_extension(path) {
        Some(e) => lookup(extension_languages(), lowercase(e)),
        None => None,
    }
}

/// The last component of a `'/'`-separated path, as a position range.
fn file_name_exec(path: &Vec<char>) -> (r: Option<Vec<char>>)
    ensures
        r.deep_view() == file_name(path@),
{
    let comps = split_char(path, '/');
    let ghost all = comps.deep_view();
    let ghost keep = |c: Seq<char>| c.len() > 0 && c != "."@;
    let mut last: Option<usize> = None;
    let mut i: usize = 0;
    while i < comps.len()
        invariant
            i <= comps.len(),
            all == comps.deep_view(),
            keep == (|c: Seq<char>| c.len() > 0 && c != "."@),
            last matches Some(k) ==> k < i && all.take(i as int).filter(keep).len() > 0 && all.take(
                i as int,
            ).filter(keep).last() == all[k as int],
            last is None ==> all.take(i as int).filter(keep).len() == 0,
        decreases comps.len() - i,
    {
        let ghost prefix = all.take(i as int);
        assert(all.take(i + 1).drop_last() =~= prefix);
        assert(all[i as int] =~= comps@[i as int]@);
        reveal_with_fuel(Seq::filter, 1);
        if comps[i].len() > 0 && !crate::text::eq_str(&comps[i], ".") {
            last = Some(i);
        }
        i += 1;
    }
    assert(all.take(comps.len() as int) =~= all);
    match last {
        None => None,
        Some(k) => {
            assert(all[k as int] =~= comps@[k as int]@);
            if crate::text::eq_str(&comps[k], "..") {
                None
            } else {
                let n = crate::text::slice_vec(&comps[k], 0, comps[k].len());
                assert(n.deep_view() =~= n@);
                assert(comps@[k as int]@.subrange(0, comps@[k as int]@.len() as int) =~= comps@[k as int]@);
                Some(n)
            }
        },
    }
}

/// The extension of a `'/'`-separated path's file name.
pub(crate) fn path_extension_exec(path: &Vec<char>) -> (r: Option<Vec<char>>)
    ensures
        r.deep_view() == path_extension(path@),
{
    let name = match file_name_exec(path) {
        Some(n) => n,
        None => return None,
    };
    assert(name.deep_view() =~= name@);
    let dot: Vec<char> = vec!['.'];
    assert(dot@ =~= seq!['.']);
    match rfind_vec(&name, &dot) {
        Some(k) => {
            proof {
                crate::text::lemma_rfind_upto(name@, seq!['.'], name@.len() - 1);
                assert(crate::text::occurs_at(name@, seq!['.'], k as int));
                assert(k < name.len());
            }
            if k == 0 {
                None
            } else {
                let e = crate::text::slice_vec(&name, k + 1, name.len());
                assert(e.deep_view() =~= e@);
                Some(e)
            }
        },
        None => None,
    }
}

/// The programming language of a file, from its extension.
pub fn detect_language(path: &str) -> (r: Option<String>)
    ensures
        r.deep_view() == path_language(path@),
{
    let v = chars_of(path);
    let ext = match path_extension_exec(&v) {
        Some(e) => e,
        None => return None,
    };
    assert(ext.deep_view() =~= ext@);
    let ext_str = crate::text::string_of_all(&ext);
    let lower = chars_of(to_lowercase(ext_str.as_str()).as_str());
    let table: Vec<(&str, &str)> = vec![
        ("rs", "rust"), ("js", "javascript"), ("ts", "typescript"), ("tsx", "typescript"),
        ("jsx", "javascript"), ("py", "python"), ("go", "go"), ("java", "java"),
        ("cpp", "cpp"), ("cc", "cpp"), ("cxx", "cpp"), ("c", "c"), ("h", "cpp"),
        ("hpp", "cpp"), ("cs", "csharp"), ("rb", "ruby"), ("php", "php"),
        ("swift", "swift"), ("kt", "kotlin"), ("scala", "scala"), ("sh", "bash"),
        ("bash", "bash"), ("ps1", "powershell"), ("sql", "sql"), ("html", "html"),
        ("htm", "html"), ("css", "css"), ("scss", "scss"), ("sass", "scss"),
        ("json", "json"), ("xml", "xml"), ("yaml", "yaml"), ("yml", "yaml"),
        ("toml", "toml"), ("md", "markdown"), ("markdown", "markdown"), ("txt", "text"),
    ];
    assert(pairs_view(table@) =~= extension_languages());
    lookup_exec(&table, &lower)
}

// ---------------------------------------------------------------------------
// Checks before file operations
// ---------------------------------------------------------------------------

/// The largest file read, and the largest content written: 100 MB.
pub const MAX_FILE_BYTES: u64 = 100_000_000;

/// The largest file copied: 1 GB.
pub const MAX_COPY_BYTES: u64 = 1_000_000_000;

/// A file may be read where it is a file of at most 100 MB; the size is
/// checked first.
pub fn check_read_target(path: &str, size: u64, is_file: bool) -> (r: Result<(), String>)
    ensures
        size > 100_000_000 ==> (r matches Err(e) && e@ == "File too large: "@ + decimal(size as nat)
            + " bytes. Maximum is 100MB for safety"@),
        size <= 100_000_000 && !is_file ==> (r matches Err(e) && e@ == "Path is not a file: "@
            + path@),
        size <= 100_000_000 && is_file ==> r is Ok,
{
    if size > MAX_FILE_BYTES {
        let mut e = "File too large: ".to_owned();
        push_decimal(&mut e, size);
        append_str(&mut e, " bytes. Maximum is 100MB for safety");
        return Err(e);
    }
    if !is_file {
        let mut e = "Path is not a file: ".to_owned();
        append_str(&mut e, path);
        return Err(e);
    }
    Ok(())
}

/// Content may be written where it is at most 100 MB.
pub fn check_write_content(content: &str) -> (r: Result<(), String>)
    ensures
        content.len() <= 100_000_000 <==> r is Ok,
        r matches Err(e) ==> e@ == "Content too large: "@ + decimal(content.len() as nat)
            + " bytes. Maximum is 100MB for safety"@,
{
    let n = content.len();
    if n as u64 > MAX_FILE_BYTES {
        let mut e = "Content too large: ".to_owned();
        push_decimal(&mut e, n as u64);
        append_str(&mut e, " bytes. Maximum is 100MB for safety");
        return Err(e);
    }
    Ok(())
}

/// Only a file may be deleted as a file.
pub fn check_delete_target(path: &str, is_file: bool) -> (r: Result<(), String>)
    ensures
        is_file <==> r is Ok,
        r matches Err(e) ==> e@ == "Cannot delete: "@ + path@ + " is not a file. Use dir_delete for directories"@,
{
    if !is_file {
        let mut e = "Cannot delete: ".to_owned();
        append_str(&mut e, path);
        append_str(&mut e, " is not a file. Use dir_delete for directories");
        return Err(e);
    }
    Ok(())
}

/// A copy's source must be a file of at most 1 GB; that it is a file is
/// checked first.
pub fn check_copy_source(src: &str, size: u64, is_file: bool) -> (r: Result<(), String>)
    ensures
        !is_file ==> (r matches Err(e) && e@ == "Source is not a file: "@ + src@),
        is_file && size > 1_000_000_000 ==> (r matches Err(e) && e@ == "File too large to copy: "@
            + decimal(size as nat) + " bytes. Maximum is 1GB"@),
        is_file && size <= 1_000_000_000 ==> r is Ok,
{
    if !is_file {
        let mut e = "Source is not a file: ".to_owned();
        append_str(&mut e, src);
        return Err(e);
    }
    if size > MAX_COPY_BYTES {
        let mut e = "File too large to copy: ".to_owned();
        push_decimal(&mut e, size);
        append_str(&mut e, " bytes. Maximum is 1GB");
        return Err(e);
    }
    Ok(())
}

/// A glob pattern may not climb out of its directory (`..`) and holds at
/// most 1000 bytes; the climbing is checked first.
pub fn check_glob_pattern(pattern: &str) -> (r: Result<(), String>)
    ensures
        contains(pattern@, ".."@) ==> (r matches Err(e) && e@
            == "Glob pattern cannot contain directory traversal (..)"@),
        !contains(pattern@, ".."@) && pattern.len() > 1000 ==> (r matches Err(e) && e@
            == "Glob pattern too long: "@ + decimal(pattern.len() as nat) + " characters. Maximum is 1000"@),
        !contains(pattern@, ".."@) && pattern.len() <= 1000 ==> r is Ok,
{
    let v = chars_of(pattern);
    if contains_str(&v, "..") {
        return Err("Glob pattern cannot contain directory traversal (..)".to_owned());
    }
    let n = pattern.len();
    if n > 1000 {
        let mut e = "Glob pattern too long: ".to_owned();
        push_decimal(&mut e, n as u64);
        append_str(&mut e, " characters. Maximum is 1000");
        return Err(e);
    }
    Ok(())
}

/// The pattern searched for under `path`: every file below it where the
/// pattern is empty, else the pattern below it.
pub fn full_glob_pattern(path: &str, pattern: &str) -> (r: String)
    ensures
        r@ == (if pattern@.len() == 0 {
            path@ + "/**/*"@
        } else {
            path@ + "/"@ + pattern@
        }),
{
    let mut r = path.to_owned();
    if pattern.is_empty() {
        append_str(&mut r, "/**/*");
    } else {
        append_str(&mut r, "/");
        append_str(&mut r, pattern);
    }
    r
}

/// A directory operation needs a directory; `hint` follows the path in
/// the error (such as `. Use file_delete for files`).
pub fn check_dir_target(path: &str, is_dir: bool, hint: &str) -> (r: Result<(), String>)
    ensures
        is_dir <==> r is Ok,
        r matches Err(e) ==> e@ == "Path is not a directory: "@ + path@ + hint@,
{
    if !is_dir {
        let mut e = "Path is not a directory: ".to_owned();
        append_str(&mut e, path);
        append_str(&mut e, hint);
        return Err(e);
    }
    Ok(())
}

} // verus!
