//! Environment variables as a list of `(name, value)` entries; a later
//! entry for a name overrides an earlier one.
use crate::text::{chars_eq, chars_of, lit};
use vstd::prelude::*;

verus! {

/// The value of `key`: the last entry with that name.
pub open spec fn env_lookup(env: Seq<(String, String)>, key: Seq<char>) -> Option<Seq<char>>
    decreases env.len(),
{
    if env.len() == 0 {
        None
    } else if env.last().0@ == key {
        Some(env.last().1@)
    } else {
        env_lookup(env.drop_last(), key)
    }
}

/// The value of `key` among environment variables.
pub fn env_get(env: &Vec<(String, String)>, key: &str) -> (r: Option<String>)
    ensures
        match r {
            Some(v) => env_lookup(env@, key@) == Some(v@),
            None => env_lookup(env@, key@) is None,
        },
{
    let kv = chars_of(key);
    let mut k = env.len();
    proof {
        assert(env@.take(k as int) == env@);
    }
    while k > 0
        invariant
            k <= env@.len(),
            kv@ == key@,
            env_lookup(env@, key@) == env_lookup(env@.take(k as int), key@),
        decreases k,
    {
        proof {
            assert(env@.take(k as int).drop_last() == env@.take(k - 1));
            assert(env@.take(k as int).last() == env@[k - 1]);
        }
        let name = chars_of(env[k - 1].0.as_str());
        if crate::text::chars_eq(name.as_slice(), kv.as_slice()) {
            return Some(env[k - 1].1.clone());
        }
        k = k - 1;
    }
    proof {
        assert(env@.take(0) == Seq::<(String, String)>::empty());
    }
    None
}

/// The variables as pairs of texts.
pub open spec fn pairs_of(env: Seq<(String, String)>) -> Seq<(Seq<char>, Seq<char>)> {
    env.map_values(|e: (String, String)| (e.0@, e.1@))
}

/// The value of `key` among pairs of texts: the last entry with that name.
pub open spec fn pairs_lookup(env: Seq<(Seq<char>, Seq<char>)>, key: Seq<char>) -> Option<Seq<char>>
    decreases env.len(),
{
    if env.len() == 0 {
        None
    } else if env.last().0 == key {
        Some(env.last().1)
    } else {
        pairs_lookup(env.drop_last(), key)
    }
}

pub proof fn lemma_lookup_pairs(env: Seq<(String, String)>, key: Seq<char>)
    ensures
        env_lookup(env, key) == pairs_lookup(pairs_of(env), key),
    decreases env.len(),
{
    if env.len() > 0 {
        assert(pairs_of(env).drop_last() == pairs_of(env.drop_last()));
        lemma_lookup_pairs(env.drop_last(), key);
    }
}

/// A copy of the variables.
pub fn copy_env(env: &Vec<(String, String)>) -> (r: Vec<(String, String)>)
    ensures
        r@ == env@,
{
    let mut r: Vec<(String, String)> = Vec::new();
    let mut i: usize = 0;
    while i < env.len()
        invariant
            i <= env@.len(),
            r@ == env@.take(i as int),
        decreases env@.len() - i,
    {
        r.push((env[i].0.clone(), env[i].1.clone()));
        proof {
            assert(env@.take(i + 1) == env@.take(i as int).push(env@[i as int]));
        }
        i = i + 1;
    }
    proof {
        assert(env@.take(env@.len() as int) == env@);
    }
    r
}

/// Sets `key` to `value`: replaces the last entry with that name, or
/// appends one.
pub fn env_set(env: &mut Vec<(String, String)>, key: &str, value: String)
    ensures
        forall|k: Seq<char>|
            #[trigger] env_lookup(final(env)@, k) == if k == key@ {
                Some(value@)
            } else {
                env_lookup(old(env)@, k)
            },
{
    let kv = chars_of(key);
    let mut i = env.len();
    proof {
        assert(env@.take(i as int) == env@);
    }
    while i > 0
        invariant
            i <= env@.len(),
            env@ == old(env)@,
            kv@ == key@,
            forall|q: int| i <= q < env@.len() ==> env@[q].0@ != key@,
        decreases i,
    {
        let name = chars_of(env[i - 1].0.as_str());
        if chars_eq(name.as_slice(), kv.as_slice()) {
            let ghost before = env@;
            let k = env[i - 1].0.clone();
            env.set(i - 1, (k, value));
            proof {
                assert forall|k: Seq<char>| #[trigger] env_lookup(env@, k) == if k == key@ {
                    Some(value@)
                } else {
                    env_lookup(before, k)
                } by {
                    lemma_env_lookup_set(before, i - 1, key@, value, k);
                }
            }
            return;
        }
        i = i - 1;
    }
    let ghost before = env@;
    env.push((lit(key), value));
    proof {
        assert(env@.drop_last() == before);
        assert forall|k: Seq<char>| #[trigger] env_lookup(env@, k) == if k == key@ {
            Some(value@)
        } else {
            env_lookup(before, k)
        } by {}
    }
}

proof fn lemma_env_lookup_set(env: Seq<(String, String)>, i: int, key: Seq<char>, value: String, k: Seq<char>)
    requires
        0 <= i < env.len(),
        env[i].0@ == key,
        forall|q: int| i < q < env.len() ==> env[q].0@ != key,
    ensures
        env_lookup(env.update(i, (env[i].0, value)), k) == if k == key {
            Some(value@)
        } else {
            env_lookup(env, k)
        },
    decreases env.len(),
{
    let u = env.update(i, (env[i].0, value));
    if i == env.len() - 1 {
        assert(u.drop_last() == env.drop_last());
    } else {
        assert(u.drop_last() == env.drop_last().update(i, (env[i].0, value)));
        lemma_env_lookup_set(env.drop_last(), i, key, value, k);
    }
}

/// What is set is what is read back, and every other name keeps its value:
/// for any list `after` that `env_set(key, value)` produced from `before`.
pub proof fn lemma_read_after_set(
    before: Seq<(String, String)>,
    after: Seq<(String, String)>,
    key: Seq<char>,
    value: Seq<char>,
    other: Seq<char>,
)
    requires
        forall|k: Seq<char>|
            #[trigger] env_lookup(after, k) == if k == key {
                Some(value)
            } else {
                env_lookup(before, k)
            },
    ensures
        env_lookup(after, key) == Some(value),
        other != key ==> env_lookup(after, other) == env_lookup(before, other),
{
    assert(env_lookup(after, key) == Some(value));
    assert(env_lookup(after, other) == if other == key { Some(value) } else { env_lookup(before, other) });
}

} // verus!
