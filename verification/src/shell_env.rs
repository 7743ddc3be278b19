use vstd::prelude::*;

use crate::text::{chars_equal, chars_of};

verus! {

/// The value of the first variable in `vars[i..]` named `key`.
pub open spec fn env_value_from(vars: Seq<(String, String)>, key: Seq<char>, i: int) -> Option<
    Seq<char>,
>
    decreases vars.len() - i,
{
    if i < 0 || i >= vars.len() {
        None
    } else if vars[i].0@ == key {
        Some(vars[i].1@)
    } else {
        env_value_from(vars, key, i + 1)
    }
}

/// The value of the first variable in `vars` named `key`.
pub open spec fn env_value(vars: Seq<(String, String)>, key: Seq<char>) -> Option<Seq<char>> {
    env_value_from(vars, key, 0)
}

/// Looks up the first variable named `key` among `env_vars`.
pub fn value(env_vars: &[(String, String)], key: &str) -> (res: Option<String>)
    ensures
        match res {
            Some(v) => env_value(env_vars@, key@) == Some(v@),
            None => env_value(env_vars@, key@) is None,
        },
{
    let wanted = chars_of(key);
    let mut i: usize = 0;
    while i < env_vars.len()
        invariant
            i <= env_vars@.len(),
            wanted@ == key@,
            env_value(env_vars@, key@) == env_value_from(env_vars@, key@, i as int),
        decreases env_vars@.len() - i,
    {
        let name = chars_of(env_vars[i].0.as_str());
        if chars_equal(name.as_slice(), wanted.as_slice()) {
            return Some(env_vars[i].1.clone());
        }
        i += 1;
    }
    None
}

} // verus!
