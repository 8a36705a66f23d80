//! Reading variables out of a snapshot of the process environment.
use vstd::prelude::*;

verus! {

/// The value of the first variable named `key` in `env`, if there is one.
pub open spec fn lookup(env: Seq<(String, String)>, key: Seq<char>) -> Option<Seq<char>>
    decreases env.len(),
{
    if env.len() == 0 {
        None
    } else if env[0].0@ == key {
        Some(env[0].1@)
    } else {
        lookup(env.drop_first(), key)
    }
}

/// The value of the variable `key` in `env`, or `default` where it is not set.
pub open spec fn var_or(env: Seq<(String, String)>, key: Seq<char>, default: Seq<char>) -> Seq<
    char,
> {
    match lookup(env, key) {
        Some(v) => v,
        None => default,
    }
}

/// Where the variable `key` is first set in `env`, if it is.
fn position(env: &Vec<(String, String)>, key: &str) -> (r: Option<usize>)
    ensures
        match r {
            Some(i) => i < env@.len() && lookup(env@, key@) == Some(env@[i as int].1@),
            None => lookup(env@, key@) is None,
        },
{
    let wanted = key.to_owned();
    let mut i: usize = 0;
    assert(env@.subrange(0, env@.len() as int) =~= env@);
    while i < env.len()
        invariant
            i <= env@.len(),
            wanted@ == key@,
            lookup(env@, key@) == lookup(env@.subrange(i as int, env@.len() as int), key@),
        decreases env@.len() - i,
    {
        if env[i].0 == wanted {
            return Some(i);
        }
        assert(env@.subrange(i as int, env@.len() as int).drop_first() =~= env@.subrange(
            i + 1,
            env@.len() as int,
        ));
        i = i + 1;
    }
    None
}

/// The value of the variable `key` in the environment `env`, or `default`
/// where it is not set.
pub fn env_var(env: &Vec<(String, String)>, key: &str, default: String) -> (r: String)
    ensures
        r@ == var_or(env@, key@, default@),
{
    match position(env, key) {
        Some(i) => env[i].1.clone(),
        None => default,
    }
}

/// Whether the variable `key` is set in the environment `env`.
pub fn env_var_exists(env: &Vec<(String, String)>, key: &str) -> (r: bool)
    ensures
        r == lookup(env@, key@) is Some,
{
    position(env, key).is_some()
}

} // verus!
