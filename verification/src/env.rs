//! Reading settings from a snapshot of the process environment.

use vstd::prelude::*;
use vstd::string::*;
use crate::text::{chars_eq, chars_of};

verus! {

/// The value of the first variable named `key`, looked up from index `i` on.
pub open spec fn env_lookup_from(vars: Seq<(String, String)>, key: Seq<char>, i: int) -> Option<
    Seq<char>,
>
    decreases vars.len() - i,
{
    if i < 0 || i >= vars.len() {
        None
    } else if vars[i].0@ == key {
        Some(vars[i].1@)
    } else {
        env_lookup_from(vars, key, i + 1)
    }
}

/// The value of the variable named `key`, if set.
pub open spec fn env_lookup(vars: Seq<(String, String)>, key: Seq<char>) -> Option<Seq<char>> {
    env_lookup_from(vars, key, 0)
}

/// The value of the variable named `key`, or `default` when it is not set.
pub open spec fn env_or_spec(vars: Seq<(String, String)>, key: Seq<char>, default: Seq<char>) -> Seq<
    char,
> {
    match env_lookup(vars, key) {
        Some(v) => v,
        None => default,
    }
}

/// Looks a variable up.
pub fn env_var(vars: &[(String, String)], key: &str) -> (r: Option<String>)
    ensures
        match env_lookup(vars@, key@) {
            Some(v) => r matches Some(s) && s@ == v,
            None => r is None,
        },
{
    let k = chars_of(key);
    let mut i: usize = 0;
    while i < vars.len()
        invariant
            i <= vars@.len(),
            k@ == key@,
            env_lookup(vars@, key@) == env_lookup_from(vars@, key@, i as int),
        decreases vars.len() - i,
    {
        let name = chars_of(vars[i].0.as_str());
        if chars_eq(&name, &k) {
            return Some(vars[i].1.clone());
        }
        i += 1;
    }
    None
}

/// A variable's value, or `default` when it is not set.
pub fn env_or(vars: &[(String, String)], key: &str, default: &str) -> (r: String)
    ensures
        r@ == env_or_spec(vars@, key@, default@),
{
    match env_var(vars, key) {
        Some(v) => v,
        None => String::from_str(default),
    }
}

/// Whether a setting's value is exactly `true`.
pub fn is_true(value: &String) -> (r: bool)
    ensures
        r == (value@ == "true"@),
{
    let v = chars_of(value.as_str());
    chars_eq(&v, &chars_of("true"))
}

} // verus!
