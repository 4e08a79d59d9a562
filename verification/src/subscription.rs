//! Subscription plans: names and billing intervals read from plan ids.

use vstd::prelude::*;

use crate::text::{chars_of, contains, contains_str};

verus! {

broadcast use vstd::string::group_string_axioms;

/// The tier named in a plan id.
pub open spec fn tier_name(id: Seq<char>) -> Seq<char> {
    if contains(id, "basic"@) {
        "Basic"@
    } else if contains(id, "pro"@) {
        "Pro"@
    } else if contains(id, "enterprise"@) {
        "Enterprise"@
    } else {
        "Standard"@
    }
}

/// The plan name and billing interval of a plan id: a monthly or yearly
/// tier where the id says `month` or `year`, a monthly custom plan
/// otherwise.
pub open spec fn plan_details(id: Seq<char>) -> (Seq<char>, Seq<char>) {
    if contains(id, "month"@) {
        (tier_name(id), "monthly"@)
    } else if contains(id, "year"@) {
        (tier_name(id), "yearly"@)
    } else {
        ("Custom"@, "monthly"@)
    }
}

/// The tier named in a plan id.
fn tier_of(id: &Vec<char>) -> (r: String)
    ensures
        r@ == tier_name(id@),
{
    if contains_str(id, "basic") {
        "Basic".to_owned()
    } else if contains_str(id, "pro") {
        "Pro".to_owned()
    } else if contains_str(id, "enterprise") {
        "Enterprise".to_owned()
    } else {
        "Standard".to_owned()
    }
}

/// The plan name and billing interval of a plan id.
pub fn get_plan_details(plan_id: &str) -> (r: (String, String))
    ensures
        (r.0@, r.1@) == plan_details(plan_id@),
{
    let id = chars_of(plan_id);
    if contains_str(&id, "month") {
        (tier_of(&id), "monthly".to_owned())
    } else if contains_str(&id, "year") {
        (tier_of(&id), "yearly".to_owned())
    } else {
        ("Custom".to_owned(), "monthly".to_owned())
    }
}

} // verus!
