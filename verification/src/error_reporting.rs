//! The application log as the error-reporting commands read it: counts of
//! errors and warnings, its last lines, and which files of the log
//! directory are logs.

use vstd::prelude::*;
use crate::text::{
    chars_of, find_from, find_from_exec, lemma_find_from, lines, lines_exec, string_of_all, eq_str,
    contains, lemma_contains_at, occurs_at,
};
use crate::file_ops::{path_extension, path_extension_exec};

verus! {

broadcast use vstd::string::group_string_axioms;

/// Error counts of the application log.
pub struct ErrorStats {
    pub total_errors: usize,
    pub critical_errors: usize,
    pub warnings: usize,
    pub log_file_size_bytes: u64,
}

/// The number of occurrences of `p` in `h` from position `i` on, taken
/// from left to right without overlap.
pub open spec fn matches_from(h: Seq<char>, p: Seq<char>, i: int) -> nat
    decreases h.len() - i,
{
    if p.len() == 0 || i < 0 {
        0
    } else {
        match find_from(h, p, i) {
            None => 0,
            Some(k) => {
                proof {
                    lemma_find_from(h, p, i);
                }
                1 + matches_from(h, p, k + p.len())
            },
        }
    }
}

/// The number of non-overlapping occurrences of a non-empty `p` in `h`
/// (`str::matches(p).count()`).
pub open spec fn count_matches(h: Seq<char>, p: Seq<char>) -> nat {
    matches_from(h, p, 0)
}

/// The count from position `i` on: its matches fit in what is left of
/// `h`, and there is one exactly where `p` occurs at or after `i`.
proof fn lemma_matches_from(h: Seq<char>, p: Seq<char>, i: int)
    requires
        p.len() > 0,
        0 <= i <= h.len(),
    ensures
        matches_from(h, p, i) * p.len() <= h.len() - i,
        matches_from(h, p, i) > 0 <==> exists|j: int| i <= j && occurs_at(h, p, j),
    decreases h.len() - i,
{
    lemma_find_from(h, p, i);
    match find_from(h, p, i) {
        None => {
            assert(matches_from(h, p, i) == 0);
            assert(0 * p.len() == 0) by (nonlinear_arith);
        },
        Some(k) => {
            let m = matches_from(h, p, k + p.len());
            assert(matches_from(h, p, i) == m + 1);
            lemma_matches_from(h, p, k + p.len());
            assert((m + 1) * p.len() == m * p.len() + p.len()) by (nonlinear_arith);
            assert(occurs_at(h, p, k));
        },
    }
}

/// The count of a non-empty pattern tells whether the text holds it, and
/// its matches, taken without overlap, fit in the text: there is at least
/// one exactly where the text contains the pattern, and never more than
/// the text's length divided by the pattern's.
pub proof fn law_count_matches(h: Seq<char>, p: Seq<char>)
    requires
        p.len() > 0,
    ensures
        count_matches(h, p) > 0 <==> contains(h, p),
        count_matches(h, p) * p.len() <= h.len(),
{
    lemma_matches_from(h, p, 0);
    lemma_find_from(h, p, 0);
    if count_matches(h, p) > 0 {
        let j = choose|j: int| 0 <= j && occurs_at(h, p, j);
        lemma_contains_at(h, p, j);
    }
}

/// Counts the non-overlapping occurrences of `p` in `h`.
pub fn count_matches_exec(h: &Vec<char>, p: &str) -> (r: usize)
    requires
        p@.len() > 0,
    ensures
        r == count_matches(h@, p@),
{
    let pv = chars_of(p);
    let mut count: usize = 0;
    let mut i: usize = 0;
    loop
        invariant
            i <= h.len(),
            pv@ == p@,
            p@.len() > 0,
            count <= i,
            count + matches_from(h@, p@, i as int) == count_matches(h@, p@),
        decreases h.len() - i,
    {
        proof {
            lemma_find_from(h@, p@, i as int);
        }
        match find_from_exec(h, &pv, i) {
            None => {
                return count;
            },
            Some(k) => {
                count = count + 1;
                i = k + pv.len();
            },
        }
    }
}

/// The statistics of the log: with its text, the counts of `"ERROR"`,
/// `"CRITICAL"` and `"WARN"` in it and its size; without a log, zeros.
pub fn error_stats(log: Option<&str>, log_file_size_bytes: u64) -> (r: ErrorStats)
    ensures
        match log {
            Some(c) => {
                &&& r.total_errors == count_matches(c@, "ERROR"@)
                &&& r.critical_errors == count_matches(c@, "CRITICAL"@)
                &&& r.warnings == count_matches(c@, "WARN"@)
                &&& r.log_file_size_bytes == log_file_size_bytes
            },
            None => r.total_errors == 0 && r.critical_errors == 0 && r.warnings == 0
                && r.log_file_size_bytes == 0,
        },
{
    match log {
        Some(content) => {
            proof {
                reveal_strlit("ERROR");
                reveal_strlit("CRITICAL");
                reveal_strlit("WARN");
            }
            let v = chars_of(content);
            ErrorStats {
                total_errors: count_matches_exec(&v, "ERROR"),
                critical_errors: count_matches_exec(&v, "CRITICAL"),
                warnings: count_matches_exec(&v, "WARN"),
                log_file_size_bytes,
            }
        },
        None => ErrorStats {
            total_errors: 0,
            critical_errors: 0,
            warnings: 0,
            log_file_size_bytes: 0,
        },
    }
}

/// The last `n` lines of `content` (all of them where it has fewer).
pub open spec fn last_lines(content: Seq<char>, n: int) -> Seq<Seq<char>> {
    let all = lines(content);
    if all.len() <= n {
        all
    } else {
        all.subrange(all.len() - n, all.len() as int)
    }
}

/// The last `n` lines of the log's text.
pub fn tail_lines(content: &str, n: usize) -> (r: Vec<String>)
    ensures
        r.deep_view() == last_lines(content@, n as int),
{
    let v = chars_of(content);
    let all = lines_exec(&v);
    let start = if all.len() > n {
        all.len() - n
    } else {
        0
    };
    let mut r: Vec<String> = Vec::new();
    let mut i = start;
    while i < all.len()
        invariant
            start <= i <= all.len(),
            all.deep_view() == lines(content@),
            r.deep_view() == all.deep_view().subrange(start as int, i as int),
        decreases all.len() - i,
    {
        let line = string_of_all(&all[i]);
        assert(all[i as int].deep_view() =~= all[i as int]@);
        let ghost before = r.deep_view();
        r.push(line);
        assert(r.deep_view() =~= before.push(line@));
        assert(all.deep_view().subrange(start as int, i + 1) =~= all.deep_view().subrange(
            start as int,
            i as int,
        ).push(all.deep_view()[i as int]));
        i += 1;
    }
    assert(all.deep_view().subrange(start as int, all.len() as int) =~= last_lines(
        content@,
        n as int,
    ));
    r
}

/// A file of the log directory is a log: its extension is `"log"`.
pub fn is_log_file(path: &str) -> (r: bool)
    ensures
        r == (path_extension(path@) == Some("log"@)),
{
    let v = chars_of(path);
    match path_extension_exec(&v) {
        Some(ext) => {
            assert(ext.deep_view() =~= ext@);
            eq_str(&ext, "log")
        },
        None => false,
    }
}

} // verus!
