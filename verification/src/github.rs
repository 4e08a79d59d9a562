//! GitHub repositories: reading repository URLs, choosing which files to
//! read, counting bytes per language, and searching the files read.

use vstd::prelude::*;

use crate::text::{
    chars_of, contains, contains_str, eq_str, lowercase, split, split_char, string_of_all,
    to_lowercase,
};

verus! {

broadcast use vstd::string::group_string_axioms;

/// A repository that has been cloned.
#[derive(Debug)]
pub struct GitHubRepo {
    pub owner: String,
    pub name: String,
    pub url: String,
    pub branch: Option<String>,
    pub local_path: Option<String>,
}

/// One file of a repository.
#[derive(Debug)]
pub struct RepoFile {
    pub path: String,
    pub content: Option<String>,
    pub file_type: String,
    pub size: u64,
}

/// Bytes of source in one language.
#[derive(Debug)]
pub struct LanguageTotal {
    pub language: String,
    pub bytes: u64,
}

/// What is known of a cloned repository.
#[derive(Debug)]
pub struct RepoContext {
    pub repo: GitHubRepo,
    pub files: Vec<RepoFile>,
    pub structure: String,
    pub readme: Option<String>,
    pub languages: Vec<LanguageTotal>,
}

// ---------------------------------------------------------------------------
// Repository URLs
// ---------------------------------------------------------------------------

/// `s` without all of its trailing `p` (`str::trim_end_matches`), for a
/// non-empty `p`.
pub open spec fn trim_end_str(s: Seq<char>, p: Seq<char>) -> Seq<char>
    decreases s.len(),
{
    if p.len() > 0 && p.len() <= s.len() && s.subrange(s.len() - p.len(), s.len() as int) == p {
        trim_end_str(s.subrange(0, s.len() - p.len()), p)
    } else {
        s
    }
}

/// A URL without its trailing slashes and then its trailing `".git"`s.
pub open spec fn trimmed_url(url: Seq<char>) -> Seq<char> {
    trim_end_str(trim_end_str(url, seq!['/']), ".git"@)
}

/// The owner and name a repository URL gives: the last two path pieces of
/// a `github.com` URL, or the two pieces of `owner/name`.
pub open spec fn github_owner_name(url: Seq<char>) -> Option<(Seq<char>, Seq<char>)> {
    let u = trimmed_url(url);
    let parts = split(u, seq!['/']);
    if contains(u, "github.com"@) {
        if parts.len() >= 2 {
            Some((parts[parts.len() - 2], parts[parts.len() - 1]))
        } else {
            None
        }
    } else if contains(u, seq!['/']) && parts.len() == 2 {
        Some((parts[0], parts[1]))
    } else {
        None
    }
}

/// `s` without all of its trailing `p`.
fn trim_end_matches(s: &Vec<char>, p: &str) -> (r: Vec<char>)
    requires
        p@.len() > 0,
    ensures
        r@ == trim_end_str(s@, p@),
{
    let pv = chars_of(p);
    let mut end = s.len();
    assert(s@.subrange(0, s@.len() as int) =~= s@);
    while pv.len() <= end && crate::text::occurs_at_exec(s, &pv, end - pv.len())
        invariant
            end <= s.len(),
            pv@ == p@,
            pv@.len() > 0,
            trim_end_str(s@.subrange(0, end as int), p@) == trim_end_str(s@, p@),
        decreases end,
    {
        let ghost t = s@.subrange(0, end as int);
        assert(t.subrange(t.len() - p@.len(), t.len() as int) =~= s@.subrange(end - p@.len(), end as int));
        assert(t.subrange(0, t.len() - p@.len()) =~= s@.subrange(0, end - p@.len()));
        end -= pv.len();
    }
    proof {
        let t = s@.subrange(0, end as int);
        if pv.len() <= end {
            assert(t.subrange(t.len() - p@.len(), t.len() as int) =~= s@.subrange(end - p@.len(), end as int));
        }
    }
    crate::text::slice_vec(s, 0, end)
}

/// Reads the owner and name out of a repository URL
/// (`https://github.com/owner/repo`, `git@github.com:owner/repo.git` or
/// `owner/repo`).
pub fn parse_github_url(url: &str) -> (r: Result<(String, String), String>)
    ensures
        github_owner_name(url@) matches Some((o, n)) ==> (r matches Ok((o2, n2)) && o2@ == o && n2@
            == n),
        github_owner_name(url@) is None ==> (r matches Err(e) && e@ == "Invalid GitHub URL format: "@
            + trimmed_url(url@)),
{
    proof {
        reveal_strlit("/");
        reveal_strlit(".git");
    }
    let v = chars_of(url);
    let t1 = trim_end_matches(&v, "/");
    assert("/"@ =~= seq!['/']);
    let u = trim_end_matches(&t1, ".git");
    let parts = split_char(&u, '/');
    if contains_str(&u, "github.com") {
        if parts.len() >= 2 {
            let n = parts.len();
            assert(parts.deep_view()[n - 2] =~= parts@[n - 2]@);
            assert(parts.deep_view()[n - 1] =~= parts@[n - 1]@);
            return Ok((string_of_all(&parts[n - 2]), string_of_all(&parts[n - 1])));
        }
    } else if crate::text::find_char(&u, '/').is_some() {
        if parts.len() == 2 {
            assert(parts.deep_view()[0] =~= parts@[0]@);
            assert(parts.deep_view()[1] =~= parts@[1]@);
            return Ok((string_of_all(&parts[0]), string_of_all(&parts[1])));
        }
    }
    let mut msg = "Invalid GitHub URL format: ".to_owned();
    crate::text::append_range(&mut msg, &u, 0, u.len());
    assert(u@.subrange(0, u@.len() as int) =~= u@);
    Err(msg)
}

// ---------------------------------------------------------------------------
// Files and languages
// ---------------------------------------------------------------------------

/// The extensions of files whose content is read.
pub open spec fn text_extensions() -> Seq<Seq<char>> {
    seq![
        "rs"@, "ts"@, "tsx"@, "js"@, "jsx"@, "py"@, "java"@, "c"@, "cpp"@, "h"@, "hpp"@, "go"@,
        "rb"@, "php"@, "cs"@, "swift"@, "kt"@, "scala"@, "sh"@, "bash"@, "md"@, "txt"@, "json"@,
        "yaml"@, "yml"@, "toml"@, "xml"@, "html"@, "css"@, "scss"@, "sass"@, "less"@, "sql"@,
        "proto"@, "graphql"@, "vue"@,
    ]
}

/// Whether a file with this extension is text whose content is read.
pub fn is_text_file(ext: &str) -> (r: bool)
    ensures
        r == text_extensions().contains(ext@),
{
    let exts: Vec<&str> = vec![
        "rs", "ts", "tsx", "js", "jsx", "py", "java", "c", "cpp", "h", "hpp", "go", "rb", "php",
        "cs", "swift", "kt", "scala", "sh", "bash", "md", "txt", "json", "yaml", "yml", "toml",
        "xml", "html", "css", "scss", "sass", "less", "sql", "proto", "graphql", "vue",
    ];
    assert(exts@.map_values(|e: &str| e@) =~= text_extensions());
    let v = chars_of(ext);
    let mut i: usize = 0;
    while i < exts.len()
        invariant
            i <= exts.len(),
            exts@.map_values(|e: &str| e@) == text_extensions(),
            v@ == ext@,
            forall|j: int| 0 <= j < i ==> text_extensions()[j] != ext@,
        decreases exts.len() - i,
    {
        assert(text_extensions()[i as int] == exts@[i as int]@);
        if eq_str(&v, exts[i]) {
            return true;
        }
        i += 1;
    }
    false
}

/// The language counted for a file type.
pub open spec fn language_of_type(t: Seq<char>) -> Option<Seq<char>> {
    crate::text::lookup(language_table(), t)
}

/// Languages by file type.
pub open spec fn language_table() -> Seq<(Seq<char>, Seq<char>)> {
    seq![
        ("rs"@, "Rust"@), ("ts"@, "TypeScript"@), ("tsx"@, "TypeScript"@), ("js"@, "JavaScript"@),
        ("jsx"@, "JavaScript"@), ("py"@, "Python"@), ("java"@, "Java"@), ("go"@, "Go"@),
        ("c"@, "C"@), ("h"@, "C"@), ("cpp"@, "C++"@), ("hpp"@, "C++"@), ("cc"@, "C++"@),
        ("rb"@, "Ruby"@), ("php"@, "PHP"@), ("cs"@, "C#"@), ("swift"@, "Swift"@), ("kt"@, "Kotlin"@),
    ]
}

/// The bytes per language of `files` (type and size of each).
pub open spec fn language_totals(files: Seq<(Seq<char>, u64)>) -> Map<Seq<char>, nat>
    decreases files.len(),
{
    if files.len() == 0 {
        Map::empty()
    } else {
        let m = language_totals(files.drop_last());
        match language_of_type(files.last().0) {
            Some(l) => m.insert(l, ((if m.dom().contains(l) { m[l] } else { 0 }) + files.last().1) as nat),
            None => m,
        }
    }
}

/// The type and size of each file.
pub open spec fn file_types(files: Seq<RepoFile>) -> Seq<(Seq<char>, u64)> {
    files.map_values(|f: RepoFile| (f.file_type@, f.size))
}

/// The totals of `ts` as a map from language to bytes.
pub open spec fn totals_map(ts: Seq<LanguageTotal>) -> Map<Seq<char>, nat>
    decreases ts.len(),
{
    if ts.len() == 0 {
        Map::empty()
    } else {
        totals_map(ts.drop_last()).insert(ts.last().language@, ts.last().bytes as nat)
    }
}

/// No language occurs twice in `ts`.
pub open spec fn distinct_languages(ts: Seq<LanguageTotal>) -> bool {
    forall|i: int, j: int| 0 <= i < j < ts.len() ==> ts[i].language@ != ts[j].language@
}

/// No language's total overflows.
pub open spec fn totals_fit(files: Seq<(Seq<char>, u64)>) -> bool {
    forall|n: int, l: Seq<char>|
        0 <= n <= files.len() && #[trigger] language_totals(files.take(n)).dom().contains(l)
            ==> language_totals(files.take(n))[l] <= u64::MAX
}

/// Counts the bytes of source per language among `files`.
pub fn analyze_languages(files: &Vec<RepoFile>) -> (r: Vec<LanguageTotal>)
    requires
        totals_fit(file_types(files@)),
    ensures
        distinct_languages(r@),
        totals_map(r@) == language_totals(file_types(files@)),
{
    let table: Vec<(&str, &str)> = vec![
        ("rs", "Rust"), ("ts", "TypeScript"), ("tsx", "TypeScript"), ("js", "JavaScript"),
        ("jsx", "JavaScript"), ("py", "Python"), ("java", "Java"), ("go", "Go"),
        ("c", "C"), ("h", "C"), ("cpp", "C++"), ("hpp", "C++"), ("cc", "C++"),
        ("rb", "Ruby"), ("php", "PHP"), ("cs", "C#"), ("swift", "Swift"), ("kt", "Kotlin"),
    ];
    assert(crate::text::pairs_view(table@) =~= language_table());
    let ghost fs = file_types(files@);
    let mut totals: Vec<LanguageTotal> = Vec::new();
    let mut i: usize = 0;
    while i < files.len()
        invariant
            i <= files.len(),
            fs == file_types(files@),
            totals_fit(fs),
            crate::text::pairs_view(table@) == language_table(),
            distinct_languages(totals@),
            totals_map(totals@) == language_totals(fs.take(i as int)),
        decreases files.len() - i,
    {
        let file = &files[i];
        assert(fs.take(i + 1).drop_last() =~= fs.take(i as int));
        assert(fs.take(i + 1).last() == (file.file_type@, file.size));
        let ty = chars_of(file.file_type.as_str());
        if let Some(lang) = crate::text::lookup_exec(&table, &ty) {
            let ghost m = language_totals(fs.take(i as int));
            proof {
                assert(language_totals(fs.take(i + 1)).dom().contains(lang@));
            }
            add_total(&mut totals, lang, file.size, Ghost(language_totals(fs.take(i + 1))));
        }
        i += 1;
    }
    assert(fs.take(files.len() as int) =~= fs);
    totals
}

/// `totals_map` finds the entry that holds a language.
proof fn lemma_totals_map_at(ts: Seq<LanguageTotal>, k: int)
    requires
        distinct_languages(ts),
        0 <= k < ts.len(),
    ensures
        totals_map(ts).dom().contains(ts[k].language@),
        totals_map(ts)[ts[k].language@] == ts[k].bytes,
    decreases ts.len(),
{
    if k < ts.len() - 1 {
        lemma_totals_map_at(ts.drop_last(), k);
    }
}

/// `totals_map` holds no language that no entry holds.
proof fn lemma_totals_map_dom(ts: Seq<LanguageTotal>, l: Seq<char>)
    requires
        forall|k: int| 0 <= k < ts.len() ==> ts[k].language@ != l,
    ensures
        !totals_map(ts).dom().contains(l),
    decreases ts.len(),
{
    if ts.len() > 0 {
        lemma_totals_map_dom(ts.drop_last(), l);
    }
}

/// Changing the bytes of entry `k` changes the map at its language only.
proof fn lemma_totals_map_update(ts: Seq<LanguageTotal>, k: int, t: LanguageTotal)
    requires
        distinct_languages(ts),
        0 <= k < ts.len(),
        t.language@ == ts[k].language@,
    ensures
        totals_map(ts.update(k, t)) == totals_map(ts).insert(t.language@, t.bytes as nat),
    decreases ts.len(),
{
    let us = ts.update(k, t);
    if k == ts.len() - 1 {
        assert(us.drop_last() =~= ts.drop_last());
        if ts.len() > 1 {
            lemma_totals_map_dom(ts.drop_last(), t.language@);
        }
        assert(totals_map(us) =~= totals_map(ts).insert(t.language@, t.bytes as nat));
    } else {
        assert(us.drop_last() =~= ts.drop_last().update(k, t));
        lemma_totals_map_update(ts.drop_last(), k, t);
        assert(totals_map(us) =~= totals_map(ts).insert(t.language@, t.bytes as nat));
    }
}

/// Adds `size` bytes to the total of `lang`, adding the language if new.
fn add_total(totals: &mut Vec<LanguageTotal>, lang: String, size: u64, after: Ghost<Map<Seq<char>, nat>>)
    requires
        distinct_languages(old(totals)@),
        after@ == totals_map(old(totals)@).insert(
            lang@,
            ((if totals_map(old(totals)@).dom().contains(lang@) {
                totals_map(old(totals)@)[lang@]
            } else {
                0
            }) + size) as nat,
        ),
        after@[lang@] <= u64::MAX,
    ensures
        distinct_languages(final(totals)@),
        totals_map(final(totals)@) == after@,
{
    let l = chars_of(lang.as_str());
    let mut k: usize = 0;
    while k < totals.len()
        invariant
            k <= totals.len(),
            l@ == lang@,
            totals@ == old(totals)@,
            distinct_languages(old(totals)@),
            after@ == totals_map(old(totals)@).insert(
                lang@,
                ((if totals_map(old(totals)@).dom().contains(lang@) {
                    totals_map(old(totals)@)[lang@]
                } else {
                    0
                }) + size) as nat,
            ),
            after@[lang@] <= u64::MAX,
            forall|j: int| 0 <= j < k ==> totals@[j].language@ != lang@,
        decreases totals.len() - k,
    {
        if eq_str(&l, totals[k].language.as_str()) {
            proof {
                lemma_totals_map_at(totals@, k as int);
            }
            let bytes = totals[k].bytes + size;
            let ghost ts = totals@;
            let t = LanguageTotal { language: lang, bytes };
            let ghost tv = t;
            totals.set(k, t);
            proof {
                lemma_totals_map_update(ts, k as int, tv);
                assert(totals@ == ts.update(k as int, tv));
            }
            return;
        }
        k += 1;
    }
    proof {
        lemma_totals_map_dom(totals@, lang@);
    }
    let ghost ts = totals@;
    let t = LanguageTotal { language: lang, bytes: size };
    totals.push(t);
    assert(totals@.drop_last() =~= ts);
}

/// The bytes counted so far for `lang`: its entry's, or none.
fn current_total(totals: &Vec<LanguageTotal>, lang: &String) -> (r: u64)
    requires
        distinct_languages(totals@),
    ensures
        r == (if totals_map(totals@).dom().contains(lang@) {
            totals_map(totals@)[lang@]
        } else {
            0
        }),
{
    let l = chars_of(lang.as_str());
    let mut k: usize = 0;
    while k < totals.len()
        invariant
            k <= totals.len(),
            l@ == lang@,
            distinct_languages(totals@),
            forall|j: int| 0 <= j < k ==> totals@[j].language@ != lang@,
        decreases totals.len() - k,
    {
        if eq_str(&l, totals[k].language.as_str()) {
            proof {
                lemma_totals_map_at(totals@, k as int);
            }
            return totals[k].bytes;
        }
        k += 1;
    }
    proof {
        lemma_totals_map_dom(totals@, lang@);
    }
    0
}

/// Whether counting the bytes per language of `files` stays within `u64`
/// (`analyze_languages` takes them).
pub fn language_totals_fit(files: &Vec<RepoFile>) -> (r: bool)
    ensures
        r == totals_fit(file_types(files@)),
{
    let table: Vec<(&str, &str)> = vec![
        ("rs", "Rust"), ("ts", "TypeScript"), ("tsx", "TypeScript"), ("js", "JavaScript"),
        ("jsx", "JavaScript"), ("py", "Python"), ("java", "Java"), ("go", "Go"),
        ("c", "C"), ("h", "C"), ("cpp", "C++"), ("hpp", "C++"), ("cc", "C++"),
        ("rb", "Ruby"), ("php", "PHP"), ("cs", "C#"), ("swift", "Swift"), ("kt", "Kotlin"),
    ];
    assert(crate::text::pairs_view(table@) =~= language_table());
    let ghost fs = file_types(files@);
    let mut totals: Vec<LanguageTotal> = Vec::new();
    let mut i: usize = 0;
    assert(fs.take(0) =~= Seq::<(Seq<char>, u64)>::empty());
    while i < files.len()
        invariant
            i <= files.len(),
            fs == file_types(files@),
            crate::text::pairs_view(table@) == language_table(),
            distinct_languages(totals@),
            totals_map(totals@) == language_totals(fs.take(i as int)),
            forall|n: int, l: Seq<char>|
                0 <= n <= i && #[trigger] language_totals(fs.take(n)).dom().contains(l)
                    ==> language_totals(fs.take(n))[l] <= u64::MAX,
        decreases files.len() - i,
    {
        let file = &files[i];
        let ghost m = language_totals(fs.take(i as int));
        let ghost m2 = language_totals(fs.take(i + 1));
        assert(fs.take(i + 1).drop_last() =~= fs.take(i as int));
        assert(fs.take(i + 1).last() == (file.file_type@, file.size));
        let ty = chars_of(file.file_type.as_str());
        if let Some(lang) = crate::text::lookup_exec(&table, &ty) {
            let cur = current_total(&totals, &lang);
            if cur > u64::MAX - file.size {
                proof {
                    assert(m2.dom().contains(lang@));
                    assert(m2[lang@] > u64::MAX);
                }
                return false;
            }
            add_total(&mut totals, lang, file.size, Ghost(m2));
        }
        assert forall|n: int, l: Seq<char>|
            0 <= n <= i + 1 && #[trigger] language_totals(fs.take(n)).dom().contains(l)
                implies language_totals(fs.take(n))[l] <= u64::MAX by {
            if n == i + 1 {
                if m.dom().contains(l) {
                    assert(language_totals(fs.take(i as int)).dom().contains(l));
                }
            }
        }
        i += 1;
    }
    assert(fs.take(files.len() as int) =~= fs);
    true
}

/// A file matches a search where its path or its content holds the query,
/// all lower-cased.
pub open spec fn file_matches(f: &RepoFile, query: Seq<char>) -> bool {
    contains(lowercase(f.path@), lowercase(query)) || match &f.content {
        Some(c) => contains(lowercase(c@), lowercase(query)),
        None => false,
    }
}

/// The files, in order, whose path or content holds the query, ignoring
/// case.
pub fn search_files(files: Vec<RepoFile>, query: &str) -> (r: Vec<RepoFile>)
    ensures
        r@ == files@.filter(|f: RepoFile| file_matches(&f, query@)),
{
    let q = to_lowercase(query);
    let ghost pred = |f: RepoFile| file_matches(&f, query@);
    let mut out: Vec<RepoFile> = Vec::new();
    let mut rest = files;
    let ghost all = rest@;
    let total = rest.len();
    let mut taken: usize = 0;
    assert(rest@ =~= all.subrange(0, all.len() as int));
    while rest.len() > 0
        invariant
            taken + rest@.len() == all.len(),
            all.len() == total,
            rest@ =~= all.subrange(taken as int, all.len() as int),
            q@ == lowercase(query@),
            pred == (|f: RepoFile| file_matches(&f, query@)),
            out@ == all.take(taken as int).filter(pred),
        decreases rest.len(),
    {
        let f = rest.remove(0);
        assert(f == all[taken as int]);
        assert(all.take(taken + 1).drop_last() =~= all.take(taken as int));
        reveal_with_fuel(Seq::filter, 1);
        let path_lower = to_lowercase(f.path.as_str());
        let mut keep = contains_str(&chars_of(path_lower.as_str()), q.as_str());
        if !keep {
            if let Some(c) = &f.content {
                let content_lower = to_lowercase(c.as_str());
                keep = contains_str(&chars_of(content_lower.as_str()), q.as_str());
            }
        }
        assert(keep == pred(f));
        if keep {
            out.push(f);
        }
        taken += 1;
    }
    assert(all.take(all.len() as int) =~= all);
    out
}

} // verus!
