//! Feature flags: the default set and a lookup in it.

use vstd::prelude::*;
use crate::text::{chars_of, eq_str};

verus! {

broadcast use vstd::string::group_string_axioms;

/// The default feature flags, by name.
pub open spec fn default_flags() -> Seq<(Seq<char>, bool)> {
    seq![
        ("parallel_execution"@, true),
        ("autonomous_agent"@, true),
        ("vision_automation"@, true),
        ("new_dashboard"@, false),
        ("dark_mode"@, true),
        ("command_palette"@, true),
        ("browser_automation"@, true),
        ("database_integration"@, true),
        ("api_automation"@, true),
        ("streaming_responses"@, true),
        ("code_completion"@, false),
        ("function_calling"@, true),
        ("response_caching"@, true),
        ("prefetching"@, false),
        ("mobile_app"@, false),
        ("browser_extension"@, false),
        ("marketplace"@, false),
    ]
}

/// The value of the first flag of `table` named `name`.
pub open spec fn flag_lookup(table: Seq<(Seq<char>, bool)>, name: Seq<char>) -> Option<bool>
    decreases table.len(),
{
    if table.len() == 0 {
        None
    } else if table[0].0 == name {
        Some(table[0].1)
    } else {
        flag_lookup(table.drop_first(), name)
    }
}

/// A flag is on where the default set turns it on; an unknown flag is off.
pub open spec fn flag_value(name: Seq<char>) -> bool {
    match flag_lookup(default_flags(), name) {
        Some(b) => b,
        None => false,
    }
}

/// No two flags of `t` share a name.
pub open spec fn names_distinct(t: Seq<(Seq<char>, bool)>) -> bool {
    forall|i: int, j: int| 0 <= i < j < t.len() ==> (#[trigger] t[i]).0 != (#[trigger] t[j]).0
}

/// The first flag of `t` named as `t[i]` is `t[i]` where none before it
/// has its name.
pub proof fn lemma_flag_lookup_at(t: Seq<(Seq<char>, bool)>, i: int)
    requires
        0 <= i < t.len(),
        forall|j: int| 0 <= j < i ==> (#[trigger] t[j]).0 != t[i].0,
    ensures
        flag_lookup(t, t[i].0) == Some(t[i].1),
    decreases i,
{
    if i > 0 {
        let d = t.drop_first();
        assert forall|j: int| 0 <= j < i - 1 implies (#[trigger] d[j]).0 != d[i - 1].0 by {
            assert(d[j] == t[j + 1]);
        }
        lemma_flag_lookup_at(d, i - 1);
    }
}

/// The default flags have distinct names, so each is looked up with the
/// value it has in the full list: `feature_flag_get` agrees with
/// `feature_flag_get_all`.
pub proof fn law_flag_get_agrees_with_all(i: int)
    requires
        0 <= i < default_flags().len(),
    ensures
        names_distinct(default_flags()),
        default_flags().len() == 17,
        flag_value(default_flags()[i].0) == default_flags()[i].1,
{
    reveal_strlit("parallel_execution");
    reveal_strlit("autonomous_agent");
    reveal_strlit("vision_automation");
    reveal_strlit("new_dashboard");
    reveal_strlit("dark_mode");
    reveal_strlit("command_palette");
    reveal_strlit("browser_automation");
    reveal_strlit("database_integration");
    reveal_strlit("api_automation");
    reveal_strlit("streaming_responses");
    reveal_strlit("code_completion");
    reveal_strlit("function_calling");
    reveal_strlit("response_caching");
    reveal_strlit("prefetching");
    reveal_strlit("mobile_app");
    reveal_strlit("browser_extension");
    reveal_strlit("marketplace");
    let d = default_flags();
    assert forall|a: int, b: int| 0 <= a < b < d.len() implies (#[trigger] d[a]).0 != (
    #[trigger] d[b]).0 by {
        assert(d[a].0.len() != d[b].0.len() || d[a].0[0] != d[b].0[0] || d[a].0[2] != d[b].0[2]);
    }
    lemma_flag_lookup_at(d, i);
}

/// The views of the names of a list of flags.
pub open spec fn flags_view(t: Seq<(String, bool)>) -> Seq<(Seq<char>, bool)> {
    t.map_values(|p: (String, bool)| (p.0@, p.1))
}

/// The default table, with borrowed names.
fn flag_table() -> (r: Vec<(&'static str, bool)>)
    ensures
        r@.map_values(|p: (&str, bool)| (p.0@, p.1)) == default_flags(),
{
    let t: Vec<(&'static str, bool)> = vec![
        ("parallel_execution", true),
        ("autonomous_agent", true),
        ("vision_automation", true),
        ("new_dashboard", false),
        ("dark_mode", true),
        ("command_palette", true),
        ("browser_automation", true),
        ("database_integration", true),
        ("api_automation", true),
        ("streaming_responses", true),
        ("code_completion", false),
        ("function_calling", true),
        ("response_caching", true),
        ("prefetching", false),
        ("mobile_app", false),
        ("browser_extension", false),
        ("marketplace", false),
    ];
    assert(t@.map_values(|p: (&str, bool)| (p.0@, p.1)) =~= default_flags());
    t
}

/// Every default feature flag with its value, in the order of the
/// default set.
pub fn feature_flag_get_all() -> (r: Result<Vec<(String, bool)>, String>)
    ensures
        r matches Ok(v) && flags_view(v@) == default_flags(),
{
    let t = flag_table();
    let ghost tv = t@.map_values(|p: (&str, bool)| (p.0@, p.1));
    let mut r: Vec<(String, bool)> = Vec::new();
    let mut i: usize = 0;
    while i < t.len()
        invariant
            i <= t.len(),
            tv == t@.map_values(|p: (&str, bool)| (p.0@, p.1)),
            flags_view(r@) == tv.take(i as int),
        decreases t.len() - i,
    {
        let (name, on) = t[i];
        let mut s = String::new();
        crate::text::append_str(&mut s, name);
        let ghost before = r@;
        r.push((s, on));
        assert(flags_view(r@) =~= flags_view(before).push((name@, on)));
        assert(tv.take(i + 1) =~= tv.take(i as int).push(tv[i as int]));
        i += 1;
    }
    assert(tv.take(t.len() as int) =~= tv);
    Ok(r)
}

/// The value of the feature flag `flag_name`: on or off as the default set
/// has it, off where it is unknown.
pub fn feature_flag_get(flag_name: String) -> (r: Result<bool, String>)
    ensures
        r == Ok::<bool, String>(flag_value(flag_name@)),
{
    let t = flag_table();
    let ghost tv = t@.map_values(|p: (&str, bool)| (p.0@, p.1));
    let key = chars_of(flag_name.as_str());
    let mut i: usize = 0;
    assert(tv.skip(0) =~= tv);
    while i < t.len()
        invariant
            i <= t.len(),
            key@ == flag_name@,
            tv == t@.map_values(|p: (&str, bool)| (p.0@, p.1)),
            tv == default_flags(),
            flag_lookup(tv, key@) == flag_lookup(tv.skip(i as int), key@),
        decreases t.len() - i,
    {
        let (name, on) = t[i];
        assert(tv.skip(i as int)[0] == (name@, on));
        assert(tv.skip(i as int).drop_first() =~= tv.skip(i + 1));
        if eq_str(&key, name) {
            return Ok(on);
        }
        i += 1;
    }
    assert(tv.skip(i as int) =~= Seq::<(Seq<char>, bool)>::empty());
    Ok(false)
}

} // verus!
