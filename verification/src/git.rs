//! Git: reading what the `git` commands print (status lists, branches, the
//! log, numstat diffs, remotes, ahead/behind counts) and building the
//! arguments that the commands are run with.

use vstd::prelude::*;

use crate::text::{
    append_str, chars_of, contains, contains_str, lines, lines_exec, parse_int, parse_int_exec,
    push_decimal, split, split_char, string_of_all, trim, trim_bounds, words, words_exec, decimal,
};

verus! {

broadcast use vstd::string::group_string_axioms;

/// The state of a repository.
#[derive(Debug, Clone)]
pub struct GitStatus {
    pub branch: String,
    pub ahead: usize,
    pub behind: usize,
    pub staged: Vec<String>,
    pub unstaged: Vec<String>,
    pub untracked: Vec<String>,
    pub conflicts: Vec<String>,
}

/// One commit of the log.
#[derive(Debug, Clone)]
pub struct GitCommit {
    pub hash: String,
    pub author: String,
    pub email: String,
    pub date: String,
    pub message: String,
}

/// One branch.
#[derive(Debug, Clone)]
pub struct GitBranch {
    pub name: String,
    pub is_current: bool,
    pub last_commit: String,
}

/// The changed-line counts of one file.
#[derive(Debug, Clone)]
pub struct GitDiff {
    pub file_path: String,
    pub additions: usize,
    pub deletions: usize,
    pub diff_content: String,
}

/// A branch as text.
pub struct BranchView {
    pub name: Seq<char>,
    pub is_current: bool,
    pub last_commit: Seq<char>,
}

/// A commit as text.
pub struct CommitView {
    pub hash: Seq<char>,
    pub author: Seq<char>,
    pub email: Seq<char>,
    pub date: Seq<char>,
    pub message: Seq<char>,
}

/// A file's counts as text and numbers.
pub struct DiffStatView {
    pub file_path: Seq<char>,
    pub additions: nat,
    pub deletions: nat,
    pub diff_content: Seq<char>,
}

impl View for GitBranch {
    type V = BranchView;

    open spec fn view(&self) -> BranchView {
        BranchView { name: self.name@, is_current: self.is_current, last_commit: self.last_commit@ }
    }
}

impl View for GitCommit {
    type V = CommitView;

    open spec fn view(&self) -> CommitView {
        CommitView {
            hash: self.hash@,
            author: self.author@,
            email: self.email@,
            date: self.date@,
            message: self.message@,
        }
    }
}

impl View for GitDiff {
    type V = DiffStatView;

    open spec fn view(&self) -> DiffStatView {
        DiffStatView {
            file_path: self.file_path@,
            additions: self.additions as nat,
            deletions: self.deletions as nat,
            diff_content: self.diff_content@,
        }
    }
}

// ---------------------------------------------------------------------------
// What each line means
// ---------------------------------------------------------------------------

/// Piece `i` of `parts`, or nothing where there is none.
pub open spec fn part_or_empty(parts: Seq<Seq<char>>, i: int) -> Seq<char> {
    if 0 <= i < parts.len() {
        parts[i]
    } else {
        Seq::empty()
    }
}

/// `s` without all of its leading `c` (`str::trim_start_matches`).
pub open spec fn strip_leading(s: Seq<char>, c: char) -> Seq<char>
    decreases s.len(),
{
    if s.len() > 0 && s[0] == c {
        strip_leading(s.drop_first(), c)
    } else {
        s
    }
}

/// The number `s` reads as (`str::parse::<usize>`), or zero where it
/// reads as none.
pub open spec fn parse_or_zero(s: Seq<char>) -> nat {
    match parse_int(s, usize::MAX as nat) {
        Ok(n) => n,
        Err(_) => 0,
    }
}

/// A line of `git branch -v`: a leading `*` marks the current branch;
/// then the name and the last commit are the first two words.
pub open spec fn branch_of(line: Seq<char>) -> BranchView {
    let ws = words(trim(strip_leading(line, '*')));
    BranchView {
        name: part_or_empty(ws, 0),
        is_current: line.len() > 0 && line[0] == '*',
        last_commit: part_or_empty(ws, 1),
    }
}

/// A line of `git log --pretty=format:%H|%an|%ae|%ad|%s`.
pub open spec fn commit_of(line: Seq<char>) -> CommitView {
    let parts = split(line, seq!['|']);
    CommitView {
        hash: part_or_empty(parts, 0),
        author: part_or_empty(parts, 1),
        email: part_or_empty(parts, 2),
        date: part_or_empty(parts, 3),
        message: part_or_empty(parts, 4),
    }
}

/// A line of `git diff --numstat`: additions, deletions and the path, as
/// its first three words; counts that do not read as numbers count zero.
pub open spec fn diff_stat_of(line: Seq<char>) -> Option<DiffStatView> {
    let ws = words(line);
    if ws.len() >= 3 {
        Some(
            DiffStatView {
                file_path: ws[2],
                additions: parse_or_zero(ws[0]),
                deletions: parse_or_zero(ws[1]),
                diff_content: Seq::empty(),
            },
        )
    } else {
        None
    }
}

/// A line of `git remote -v` that names a fetch URL: the remote's name and
/// URL.
pub open spec fn remote_of(line: Seq<char>) -> Option<(Seq<char>, Seq<char>)> {
    let ws = words(line);
    if contains(line, "(fetch)"@) && ws.len() >= 2 {
        Some((ws[0], ws[1]))
    } else {
        None
    }
}

// ---------------------------------------------------------------------------
// What each output means
// ---------------------------------------------------------------------------

/// The non-empty lines of `ls`.
pub open spec fn nonempty(ls: Seq<Seq<char>>) -> Seq<Seq<char>>
    decreases ls.len(),
{
    if ls.len() == 0 {
        Seq::empty()
    } else if ls.last().len() == 0 {
        nonempty(ls.drop_last())
    } else {
        nonempty(ls.drop_last()).push(ls.last())
    }
}

/// The branches of the non-empty lines of `ls`.
pub open spec fn branches_of(ls: Seq<Seq<char>>) -> Seq<BranchView>
    decreases ls.len(),
{
    if ls.len() == 0 {
        Seq::empty()
    } else if ls.last().len() == 0 {
        branches_of(ls.drop_last())
    } else {
        branches_of(ls.drop_last()).push(branch_of(ls.last()))
    }
}

/// The commits of the non-empty lines of `ls`.
pub open spec fn commits_of(ls: Seq<Seq<char>>) -> Seq<CommitView>
    decreases ls.len(),
{
    if ls.len() == 0 {
        Seq::empty()
    } else if ls.last().len() == 0 {
        commits_of(ls.drop_last())
    } else {
        commits_of(ls.drop_last()).push(commit_of(ls.last()))
    }
}

/// The counts of the lines of `ls` that have three words.
pub open spec fn diff_stats_of(ls: Seq<Seq<char>>) -> Seq<DiffStatView>
    decreases ls.len(),
{
    if ls.len() == 0 {
        Seq::empty()
    } else {
        match diff_stat_of(ls.last()) {
            Some(d) if ls.last().len() > 0 => diff_stats_of(ls.drop_last()).push(d),
            _ => diff_stats_of(ls.drop_last()),
        }
    }
}

/// The fetch remotes of the lines of `ls`.
pub open spec fn remotes_of(ls: Seq<Seq<char>>) -> Seq<(Seq<char>, Seq<char>)>
    decreases ls.len(),
{
    if ls.len() == 0 {
        Seq::empty()
    } else {
        match remote_of(ls.last()) {
            Some(r) => remotes_of(ls.drop_last()).push(r),
            None => remotes_of(ls.drop_last()),
        }
    }
}

/// A line that is not empty.
pub open spec fn filled(l: Seq<char>) -> bool {
    l.len() > 0
}

/// A line that gives a diff count.
pub open spec fn stat_line(l: Seq<char>) -> bool {
    l.len() > 0 && diff_stat_of(l) is Some
}

/// A line that gives a fetch remote.
pub open spec fn remote_line(l: Seq<char>) -> bool {
    remote_of(l) is Some
}

/// Each reading of `git` output keeps exactly its lines of the right kind,
/// in order, one entry per line.
proof fn lemma_outputs_filter(ls: Seq<Seq<char>>)
    ensures
        nonempty(ls) == ls.filter(|l: Seq<char>| filled(l)),
        branches_of(ls) == ls.filter(|l: Seq<char>| filled(l)).map_values(
            |l: Seq<char>| branch_of(l),
        ),
        commits_of(ls) == ls.filter(|l: Seq<char>| filled(l)).map_values(
            |l: Seq<char>| commit_of(l),
        ),
        diff_stats_of(ls) == ls.filter(|l: Seq<char>| stat_line(l)).map_values(
            |l: Seq<char>| diff_stat_of(l)->0,
        ),
        remotes_of(ls) == ls.filter(|l: Seq<char>| remote_line(l)).map_values(
            |l: Seq<char>| remote_of(l)->0,
        ),
    decreases ls.len(),
{
    reveal(Seq::filter);
    if ls.len() > 0 {
        let init = ls.drop_last();
        let x = ls.last();
        lemma_outputs_filter(init);
        let f1 = |l: Seq<char>| filled(l);
        let f2 = |l: Seq<char>| stat_line(l);
        let f3 = |l: Seq<char>| remote_line(l);
        let g1 = |l: Seq<char>| branch_of(l);
        let g2 = |l: Seq<char>| commit_of(l);
        let g3 = |l: Seq<char>| diff_stat_of(l)->0;
        let g4 = |l: Seq<char>| remote_of(l)->0;
        let s1 = init.filter(f1);
        let s2 = init.filter(f2);
        let s3 = init.filter(f3);
        if filled(x) {
            assert(ls.filter(f1) == s1.push(x));
            assert(s1.push(x).map_values(g1) =~= s1.map_values(g1).push(g1(x)));
            assert(s1.push(x).map_values(g2) =~= s1.map_values(g2).push(g2(x)));
        } else {
            assert(ls.filter(f1) == s1);
        }
        if stat_line(x) {
            assert(ls.filter(f2) == s2.push(x));
            assert(s2.push(x).map_values(g3) =~= s2.map_values(g3).push(g3(x)));
        } else {
            assert(ls.filter(f2) == s2);
        }
        if remote_line(x) {
            assert(ls.filter(f3) == s3.push(x));
            assert(s3.push(x).map_values(g4) =~= s3.map_values(g4).push(g4(x)));
        } else {
            assert(ls.filter(f3) == s3);
        }
    }
}

/// Reading `git` output keeps one entry per line of the right kind, in
/// order, each read from its line: the file list and the branches and
/// commits come one per non-empty line; the diff counts one per non-empty
/// line with three words; the remotes one per fetch remote line. None is
/// dropped or repeated.
pub proof fn law_git_output_lines(out: Seq<char>)
    ensures
        nonempty(lines(out)) == lines(out).filter(|l: Seq<char>| filled(l)),
        branches_of(lines(out)) == lines(out).filter(|l: Seq<char>| filled(l)).map_values(
            |l: Seq<char>| branch_of(l),
        ),
        commits_of(lines(out)) == lines(out).filter(|l: Seq<char>| filled(l)).map_values(
            |l: Seq<char>| commit_of(l),
        ),
        diff_stats_of(lines(out)) == lines(out).filter(|l: Seq<char>| stat_line(l)).map_values(
            |l: Seq<char>| diff_stat_of(l)->0,
        ),
        remotes_of(lines(out)) == lines(out).filter(|l: Seq<char>| remote_line(l)).map_values(
            |l: Seq<char>| remote_of(l)->0,
        ),
{
    lemma_outputs_filter(lines(out));
}

/// The ahead and behind counts that `git rev-list --left-right --count`
/// printed: its first two words, zero where one is missing or is no
/// number; both zero where the command failed (no upstream).
pub open spec fn ahead_behind(succeeded: bool, out: Seq<char>) -> (nat, nat) {
    if !succeeded {
        (0, 0)
    } else {
        let ws = words(trim(out));
        (
            if ws.len() > 0 { parse_or_zero(ws[0]) } else { 0 },
            if ws.len() > 1 { parse_or_zero(ws[1]) } else { 0 },
        )
    }
}

// ---------------------------------------------------------------------------
// Reading one line
// ---------------------------------------------------------------------------

/// Where `s` starts with `k` copies of `c` and no more, dropping all of
/// its leading `c` leaves `s[k..]`.
proof fn lemma_strip_leading_at(s: Seq<char>, c: char, k: int)
    requires
        0 <= k <= s.len(),
        forall|j: int| 0 <= j < k ==> #[trigger] s[j] == c,
        k < s.len() ==> s[k] != c,
    ensures
        strip_leading(s, c) =~= s.subrange(k, s.len() as int),
    decreases k,
{
    if k > 0 {
        assert forall|j: int| 0 <= j < k - 1 implies #[trigger] s.drop_first()[j] == c by {
            assert(s.drop_first()[j] == s[j + 1]);
        }
        lemma_strip_leading_at(s.drop_first(), c, k - 1);
        assert(s.drop_first().subrange(k - 1, s.len() - 1) =~= s.subrange(k, s.len() as int));
    }
}

/// Piece `i` of `parts` as a new string, or an empty one.
fn part_string(parts: &Vec<Vec<char>>, i: usize) -> (r: String)
    ensures
        r@ == part_or_empty(parts.deep_view(), i as int),
{
    if i < parts.len() {
        assert(parts.deep_view()[i as int] == parts@[i as int]@);
        string_of_all(&parts[i])
    } else {
        String::new()
    }
}

/// The number `v` reads as, or zero.
fn number_or_zero(v: &Vec<char>) -> (r: usize)
    ensures
        r == parse_or_zero(v@),
{
    let max: u64 = usize::MAX as u64;
    assert(max == usize::MAX);
    assert(v@.subrange(0, v@.len() as int) =~= v@);
    match parse_int_exec(v, 0, v.len(), max) {
        Ok(n) => n as usize,
        Err(_) => 0,
    }
}

/// Reads a line of `git branch -v`.
pub fn branch_from_line(line: &Vec<char>) -> (r: GitBranch)
    ensures
        r@ == branch_of(line@),
{
    let is_current = line.len() > 0 && line[0] == '*';
    let mut k: usize = 0;
    while k < line.len() && line[k] == '*'
        invariant
            k <= line.len(),
            forall|j: int| 0 <= j < k ==> #[trigger] line@[j] == '*',
        decreases line.len() - k,
    {
        k += 1;
    }
    proof {
        lemma_strip_leading_at(line@, '*', k as int);
    }
    let (a, b) = trim_bounds(line, k, line.len());
    let mut rest: Vec<char> = Vec::new();
    let mut i = a;
    while i < b
        invariant
            a <= i <= b <= line.len(),
            rest@ == line@.subrange(a as int, i as int),
        decreases b - i,
    {
        rest.push(line[i]);
        assert(line@.subrange(a as int, i + 1) =~= line@.subrange(a as int, i as int).push(line@[i as int]));
        i += 1;
    }
    let ws = words_exec(&rest);
    let name = part_string(&ws, 0);
    let last_commit = part_string(&ws, 1);
    GitBranch { name, is_current, last_commit }
}

/// Reads a line of the log.
pub fn commit_from_line(line: &Vec<char>) -> (r: GitCommit)
    ensures
        r@ == commit_of(line@),
{
    let parts = split_char(line, '|');
    GitCommit {
        hash: part_string(&parts, 0),
        author: part_string(&parts, 1),
        email: part_string(&parts, 2),
        date: part_string(&parts, 3),
        message: part_string(&parts, 4),
    }
}

/// Reads a line of `git diff --numstat`.
pub fn diff_stat_from_line(line: &Vec<char>) -> (r: Option<GitDiff>)
    ensures
        match diff_stat_of(line@) {
            Some(d) => r matches Some(x) && x@ == d,
            None => r is None,
        },
{
    let ws = words_exec(line);
    if ws.len() >= 3 {
        assert(ws.deep_view()[0] == ws@[0]@);
        assert(ws.deep_view()[1] == ws@[1]@);
        assert(ws.deep_view()[2] == ws@[2]@);
        let d = GitDiff {
            file_path: string_of_all(&ws[2]),
            additions: number_or_zero(&ws[0]),
            deletions: number_or_zero(&ws[1]),
            diff_content: String::new(),
        };
        Some(d)
    } else {
        None
    }
}

/// Reads a line of `git remote -v`.
pub fn remote_from_line(line: &Vec<char>) -> (r: Option<(String, String)>)
    ensures
        match remote_of(line@) {
            Some(p) => r matches Some(x) && x.0@ == p.0 && x.1@ == p.1,
            None => r is None,
        },
{
    let ws = words_exec(line);
    if contains_str(line, "(fetch)") && ws.len() >= 2 {
        assert(ws.deep_view()[0] == ws@[0]@);
        assert(ws.deep_view()[1] == ws@[1]@);
        Some((string_of_all(&ws[0]), string_of_all(&ws[1])))
    } else {
        None
    }
}

// ---------------------------------------------------------------------------
// Reading whole outputs
// ---------------------------------------------------------------------------

/// The non-empty lines of an output: the files that `git diff
/// --name-only` and `git ls-files` list.
pub fn file_list(out: &str) -> (r: Vec<String>)
    ensures
        r.deep_view() == nonempty(lines(out@)),
{
    let v = chars_of(out);
    let ls = lines_exec(&v);
    let ghost lv = ls.deep_view();
    let mut r: Vec<String> = Vec::new();
    let mut i: usize = 0;
    while i < ls.len()
        invariant
            i <= ls.len(),
            lv == ls.deep_view(),
            r.deep_view() == nonempty(lv.take(i as int)),
        decreases ls.len() - i,
    {
        assert(lv.take(i + 1).drop_last() =~= lv.take(i as int));
        assert(lv.take(i + 1).last() == ls@[i as int]@);
        if ls[i].len() > 0 {
            let s = string_of_all(&ls[i]);
            let ghost before = r.deep_view();
            r.push(s);
            assert(r.deep_view() =~= before.push(ls@[i as int]@));
        }
        i += 1;
    }
    assert(lv.take(ls.len() as int) =~= lv);
    r
}

/// The branches that `git branch -v` lists.
pub fn parse_branches(out: &str) -> (r: Vec<GitBranch>)
    ensures
        r@.map_values(|b: GitBranch| b@) == branches_of(lines(out@)),
{
    let v = chars_of(out);
    let ls = lines_exec(&v);
    let ghost lv = ls.deep_view();
    let mut r: Vec<GitBranch> = Vec::new();
    let mut i: usize = 0;
    while i < ls.len()
        invariant
            i <= ls.len(),
            lv == ls.deep_view(),
            r@.map_values(|b: GitBranch| b@) == branches_of(lv.take(i as int)),
        decreases ls.len() - i,
    {
        assert(lv.take(i + 1).drop_last() =~= lv.take(i as int));
        assert(lv.take(i + 1).last() == ls@[i as int]@);
        if ls[i].len() > 0 {
            let b = branch_from_line(&ls[i]);
            let ghost before = r@;
            r.push(b);
            assert(r@.map_values(|b: GitBranch| b@) =~= before.map_values(|b: GitBranch| b@).push(
                b@,
            ));
        }
        i += 1;
    }
    assert(lv.take(ls.len() as int) =~= lv);
    r
}

/// The commits that the log prints, one per non-empty line.
pub fn parse_log(out: &str) -> (r: Vec<GitCommit>)
    ensures
        r@.map_values(|c: GitCommit| c@) == commits_of(lines(out@)),
{
    let v = chars_of(out);
    let ls = lines_exec(&v);
    let ghost lv = ls.deep_view();
    let mut r: Vec<GitCommit> = Vec::new();
    let mut i: usize = 0;
    while i < ls.len()
        invariant
            i <= ls.len(),
            lv == ls.deep_view(),
            r@.map_values(|c: GitCommit| c@) == commits_of(lv.take(i as int)),
        decreases ls.len() - i,
    {
        assert(lv.take(i + 1).drop_last() =~= lv.take(i as int));
        assert(lv.take(i + 1).last() == ls@[i as int]@);
        if ls[i].len() > 0 {
            let c = commit_from_line(&ls[i]);
            let ghost before = r@;
            r.push(c);
            assert(r@.map_values(|c: GitCommit| c@) =~= before.map_values(|c: GitCommit| c@).push(
                c@,
            ));
        }
        i += 1;
    }
    assert(lv.take(ls.len() as int) =~= lv);
    r
}

/// The per-file counts that `git diff --numstat` prints.
pub fn parse_numstat(out: &str) -> (r: Vec<GitDiff>)
    ensures
        r@.map_values(|d: GitDiff| d@) == diff_stats_of(lines(out@)),
{
    let v = chars_of(out);
    let ls = lines_exec(&v);
    let ghost lv = ls.deep_view();
    let mut r: Vec<GitDiff> = Vec::new();
    let mut i: usize = 0;
    while i < ls.len()
        invariant
            i <= ls.len(),
            lv == ls.deep_view(),
            r@.map_values(|d: GitDiff| d@) == diff_stats_of(lv.take(i as int)),
        decreases ls.len() - i,
    {
        assert(lv.take(i + 1).drop_last() =~= lv.take(i as int));
        assert(lv.take(i + 1).last() == ls@[i as int]@);
        if ls[i].len() > 0 {
            if let Some(d) = diff_stat_from_line(&ls[i]) {
                let ghost before = r@;
                r.push(d);
                assert(r@.map_values(|d: GitDiff| d@) =~= before.map_values(|d: GitDiff| d@).push(
                    d@,
                ));
            }
        }
        i += 1;
    }
    assert(lv.take(ls.len() as int) =~= lv);
    r
}

/// The fetch remotes that `git remote -v` lists, as name and URL.
pub fn parse_remotes(out: &str) -> (r: Vec<(String, String)>)
    ensures
        r@.map_values(|p: (String, String)| (p.0@, p.1@)) == remotes_of(lines(out@)),
{
    let v = chars_of(out);
    let ls = lines_exec(&v);
    let ghost lv = ls.deep_view();
    let mut r: Vec<(String, String)> = Vec::new();
    let mut i: usize = 0;
    while i < ls.len()
        invariant
            i <= ls.len(),
            lv == ls.deep_view(),
            r@.map_values(|p: (String, String)| (p.0@, p.1@)) == remotes_of(lv.take(i as int)),
        decreases ls.len() - i,
    {
        assert(lv.take(i + 1).drop_last() =~= lv.take(i as int));
        assert(lv.take(i + 1).last() == ls@[i as int]@);
        if let Some(p) = remote_from_line(&ls[i]) {
            let ghost before = r@;
            let ghost pv = (p.0@, p.1@);
            r.push(p);
            assert(r@.map_values(|p: (String, String)| (p.0@, p.1@)) =~= before.map_values(
                |p: (String, String)| (p.0@, p.1@),
            ).push(pv));
        }
        i += 1;
    }
    assert(lv.take(ls.len() as int) =~= lv);
    r
}

/// The ahead and behind counts of the current branch against its
/// upstream, from what `git rev-list --left-right --count HEAD...@{u}`
/// printed and whether it succeeded.
pub fn get_ahead_behind_count(succeeded: bool, out: &str) -> (r: (usize, usize))
    ensures
        (r.0 as nat, r.1 as nat) == ahead_behind(succeeded, out@),
{
    if !succeeded {
        return (0, 0);
    }
    let v = chars_of(out);
    let (a, b) = trim_bounds(&v, 0, v.len());
    assert(v@.subrange(0, v@.len() as int) =~= v@);
    let mut t: Vec<char> = Vec::new();
    let mut i = a;
    while i < b
        invariant
            a <= i <= b <= v.len(),
            t@ == v@.subrange(a as int, i as int),
        decreases b - i,
    {
        t.push(v[i]);
        assert(v@.subrange(a as int, i + 1) =~= v@.subrange(a as int, i as int).push(v@[i as int]));
        i += 1;
    }
    let ws = words_exec(&t);
    let ahead = if ws.len() > 0 {
        assert(ws.deep_view()[0] == ws@[0]@);
        number_or_zero(&ws[0])
    } else {
        0
    };
    let behind = if ws.len() > 1 {
        assert(ws.deep_view()[1] == ws@[1]@);
        number_or_zero(&ws[1])
    } else {
        0
    };
    (ahead, behind)
}

/// The status of a repository from what its commands printed: the current
/// branch (`git rev-parse --abbrev-ref HEAD`), trimmed; the ahead and
/// behind counts; and the staged, unstaged, untracked and conflicting
/// files, one per non-empty line.
pub fn status_from_outputs(
    branch_out: &str,
    ahead: usize,
    behind: usize,
    staged_out: &str,
    unstaged_out: &str,
    untracked_out: &str,
    conflicts_out: &str,
) -> (r: GitStatus)
    ensures
        r.branch@ == trim(branch_out@),
        r.ahead == ahead,
        r.behind == behind,
        r.staged.deep_view() == nonempty(lines(staged_out@)),
        r.unstaged.deep_view() == nonempty(lines(unstaged_out@)),
        r.untracked.deep_view() == nonempty(lines(untracked_out@)),
        r.conflicts.deep_view() == nonempty(lines(conflicts_out@)),
{
    let v = chars_of(branch_out);
    let branch = crate::text::trimmed_string(&v, 0, v.len());
    assert(v@.subrange(0, v@.len() as int) =~= v@);
    GitStatus {
        branch,
        ahead,
        behind,
        staged: file_list(staged_out),
        unstaged: file_list(unstaged_out),
        untracked: file_list(untracked_out),
        conflicts: file_list(conflicts_out),
    }
}

// ---------------------------------------------------------------------------
// Command arguments and messages
// ---------------------------------------------------------------------------

/// The arguments of `git push`: `--force` where asked, the remote
/// (`origin` where none is named), and the branch where one is named.
pub open spec fn push_args_of(remote: Option<Seq<char>>, branch: Option<Seq<char>>, force: bool) -> Seq<Seq<char>> {
    let base = if force { seq!["push"@, "--force"@] } else { seq!["push"@] };
    let with_remote = base.push(
        match remote {
            Some(r) => r,
            None => "origin"@,
        },
    );
    match branch {
        Some(b) => with_remote.push(b),
        None => with_remote,
    }
}

/// The arguments of `git push`.
pub fn push_args(remote: Option<String>, branch: Option<String>, force: bool) -> (r: Vec<String>)
    ensures
        r.deep_view() == push_args_of(remote.deep_view(), branch.deep_view(), force),
{
    let mut r: Vec<String> = Vec::new();
    r.push("push".to_owned());
    if force {
        r.push("--force".to_owned());
    }
    let ghost base = r.deep_view();
    match remote {
        Some(name) => r.push(name),
        None => r.push("origin".to_owned()),
    }
    let ghost with_remote = r.deep_view();
    match branch {
        Some(b) => r.push(b),
        None => {},
    }
    proof {
        assert(base =~= (if force { seq!["push"@, "--force"@] } else { seq!["push"@] }));
    }
    assert(r.deep_view() =~= push_args_of(remote.deep_view(), branch.deep_view(), force));
    r
}

/// The arguments of `git pull`: the remote (`origin` where none is
/// named), then the branch where one is named.
pub open spec fn pull_args_of(remote: Option<Seq<char>>, branch: Option<Seq<char>>) -> Seq<Seq<char>> {
    let with_remote = seq![
        "pull"@,
        match remote {
            Some(r) => r,
            None => "origin"@,
        },
    ];
    match branch {
        Some(b) => with_remote.push(b),
        None => with_remote,
    }
}

/// The arguments of `git pull`.
pub fn pull_args(remote: Option<String>, branch: Option<String>) -> (r: Vec<String>)
    ensures
        r.deep_view() == pull_args_of(remote.deep_view(), branch.deep_view()),
{
    let mut r: Vec<String> = Vec::new();
    r.push("pull".to_owned());
    match remote {
        Some(name) => r.push(name),
        None => r.push("origin".to_owned()),
    }
    match branch {
        Some(b) => r.push(b),
        None => {},
    }
    assert(r.deep_view() =~= pull_args_of(remote.deep_view(), branch.deep_view()));
    r
}

/// The arguments of `git diff` for counts: `--cached` for the staged
/// changes, `--numstat`, then the file where one is named.
pub open spec fn diff_args_of(file_path: Option<Seq<char>>, staged: bool) -> Seq<Seq<char>> {
    let base = if staged { seq!["diff"@, "--cached"@, "--numstat"@] } else { seq!["diff"@, "--numstat"@] };
    match file_path {
        Some(f) => base.push(f),
        None => base,
    }
}

/// The arguments of `git diff` for counts.
pub fn diff_args(file_path: Option<String>, staged: bool) -> (r: Vec<String>)
    ensures
        r.deep_view() == diff_args_of(file_path.deep_view(), staged),
{
    let mut r: Vec<String> = Vec::new();
    r.push("diff".to_owned());
    if staged {
        r.push("--cached".to_owned());
    }
    r.push("--numstat".to_owned());
    match file_path {
        Some(f) => r.push(f),
        None => {},
    }
    assert(r.deep_view() =~= diff_args_of(file_path.deep_view(), staged));
    r
}

/// The count argument of `git log`: `-n` and the limit, fifty where none
/// is given.
pub fn log_count_arg(limit: Option<usize>) -> (r: String)
    ensures
        r@ == "-n"@ + decimal(
            match limit {
                Some(n) => n as nat,
                None => 50,
            },
        ),
{
    let n: usize = match limit {
        Some(n) => n,
        None => 50,
    };
    let mut r = "-n".to_owned();
    push_decimal(&mut r, n as u64);
    r
}

/// The flag of `git branch` that deletes a branch: `-D` to force.
pub fn delete_branch_flag(force: bool) -> (r: &'static str)
    ensures
        r@ == (if force { "-D"@ } else { "-d"@ }),
{
    if force {
        "-D"
    } else {
        "-d"
    }
}

/// `prefix`, the name in single quotes, then `suffix`.
pub open spec fn quoted_message(prefix: Seq<char>, name: Seq<char>, suffix: Seq<char>) -> Seq<char> {
    prefix + "'"@ + name + "'"@ + suffix
}

/// A message that names something in single quotes.
fn quoted(prefix: &str, name: &str, suffix: &str) -> (r: String)
    ensures
        r@ == quoted_message(prefix@, name@, suffix@),
{
    let mut r = prefix.to_owned();
    append_str(&mut r, "'");
    append_str(&mut r, name);
    append_str(&mut r, "'");
    append_str(&mut r, suffix);
    r
}

/// `Branch '<name>' created`.
pub fn branch_created_message(name: &str) -> (r: String)
    ensures
        r@ == quoted_message("Branch "@, name@, " created"@),
{
    quoted("Branch ", name, " created")
}

/// `Branch '<name>' deleted`.
pub fn branch_deleted_message(name: &str) -> (r: String)
    ensures
        r@ == quoted_message("Branch "@, name@, " deleted"@),
{
    quoted("Branch ", name, " deleted")
}

/// `Switched to new branch '<name>'`.
pub fn switched_message(name: &str) -> (r: String)
    ensures
        r@ == quoted_message("Switched to new branch "@, name@, ""@),
{
    quoted("Switched to new branch ", name, "")
}

/// `Remote '<name>' added`.
pub fn remote_added_message(name: &str) -> (r: String)
    ensures
        r@ == quoted_message("Remote "@, name@, " added"@),
{
    quoted("Remote ", name, " added")
}

/// `Added <n> files`.
pub fn added_files_message(n: usize) -> (r: String)
    ensures
        r@ == "Added "@ + decimal(n as nat) + " files"@,
{
    let mut r = "Added ".to_owned();
    push_decimal(&mut r, n as u64);
    append_str(&mut r, " files");
    r
}

} // verus!
