//! Environment variable references of the form `${{ KEY }}`,
//! `${{ service.KEY }}` and `${{ SLASHA.KEY }}`: finding them in a value,
//! ordering variables so each comes after the variables it references, and
//! splicing resolved values back into the text.
use crate::text::{
    chars_eq, chars_of, contains_char, find_exec, find_from, has_char, lemma_find_from_bounds,
    slice_to_vec, split_once, string_of, substring, trim, trim_bounds, trim_vec,
};
use crate::topo::{
    graph_ok, lemma_missing_node, occurs, orderable, rest_blocked, topo_order, valid_order,
    valid_prefix, views,
};
use vstd::prelude::*;
use vstd::string::StringExecFns;

verus! {

/// Where a reference points.
#[derive(Clone, Debug, PartialEq, Eq)]
pub enum RefSource {
    /// Another variable of the same application.
    Own,
    /// A variable exported by the named service.
    Service(String),
    /// A value the platform provides (`SLASHA.<key>`).
    System,
}

/// A parsed reference: its source and key.
#[derive(Clone, Debug, PartialEq, Eq)]
pub struct EnvToken {
    pub source: RefSource,
    pub key: String,
}

/// The mathematical form of a [`RefSource`].
pub enum RefSourceModel {
    Own,
    Service(Seq<char>),
    System,
}

pub open spec fn source_model(s: RefSource) -> RefSourceModel {
    match s {
        RefSource::Own => RefSourceModel::Own,
        RefSource::Service(n) => RefSourceModel::Service(n@),
        RefSource::System => RefSourceModel::System,
    }
}

/// Errors of variable ordering.
#[derive(Clone, Debug, PartialEq, Eq)]
pub enum EnvError {
    /// The named variables reference each other in a cycle (or reference a
    /// variable that is part of one).
    CircularDependency(Vec<String>),
}

/// The text std's `Debug` gives a list of strings: each string quoted, with
/// its special characters escaped, joined by `, ` inside square brackets.
pub uninterp spec fn debug_string_list(items: Seq<Seq<char>>) -> Seq<char>;

/// `Debug` formatting of std (`{:?}`) applied to a list of strings.
#[verifier::external_body]
fn debug_strings(items: &Vec<String>) -> (r: String)
    ensures
        r@ == debug_string_list(items@.map_values(|k: String| k@)),
{
    format!("{:?}", items)
}

impl EnvError {
    /// The error's text as it is reported: for a cycle, the sentence
    /// `Circular dependency detected among env vars: ` followed by the list of
    /// the variables left out, written as std's `Debug` writes a list.
    pub fn message(&self) -> (m: String)
        ensures
            match self {
                EnvError::CircularDependency(keys) => m@ == "Circular dependency detected among env vars: "@
                    + debug_string_list(keys@.map_values(|k: String| k@)),
            },
    {
        match self {
            EnvError::CircularDependency(keys) => {
                let mut m = String::from_str("Circular dependency detected among env vars: ");
                let listed = debug_strings(keys);
                m.append(listed.as_str());
                m
            },
        }
    }
}

/// A reference starts at `i`: `${{`, then text without `}` up to a `}}`.
pub open spec fn ref_at(s: Seq<char>, i: int) -> bool {
    &&& 0 <= i
    &&& i + 3 <= s.len()
    &&& s[i] == '$'
    &&& s[i + 1] == '{'
    &&& s[i + 2] == '{'
    &&& find_from(s, '}', i + 3) >= 0
    &&& find_from(s, '}', i + 3) + 1 < s.len()
    &&& s[find_from(s, '}', i + 3) + 1] == '}'
}

/// The references from `i` on, leftmost first and not overlapping, each as
/// the position of its `$` and of its first closing `}`.
pub open spec fn refs_from(s: Seq<char>, i: int) -> Seq<(int, int)>
    decreases s.len() - i,
{
    if i < 0 || i >= s.len() {
        Seq::empty()
    } else if ref_at(s, i) {
        let j = find_from(s, '}', i + 3);
        proof {
            lemma_find_from_bounds(s, '}', i + 3);
        }
        seq![(i, j)] + refs_from(s, j + 2)
    } else {
        refs_from(s, i + 1)
    }
}

/// All references of a value.
pub open spec fn refs(s: Seq<char>) -> Seq<(int, int)> {
    refs_from(s, 0)
}

/// The trimmed text between `${{` and `}}`.
pub open spec fn ref_inner(s: Seq<char>, r: (int, int)) -> Seq<char> {
    trim(s.subrange(r.0 + 3, r.1))
}

/// The references of a value that name another variable of the same
/// application (no `.` in the reference), in order.
pub open spec fn own_deps_of(s: Seq<char>, rs: Seq<(int, int)>) -> Seq<Seq<char>>
    decreases rs.len(),
{
    if rs.len() == 0 {
        Seq::empty()
    } else {
        let prev = own_deps_of(s, rs.drop_last());
        let inner = ref_inner(s, rs.last());
        if has_char(inner, '.') {
            prev
        } else {
            prev.push(inner)
        }
    }
}

pub open spec fn own_deps(s: Seq<char>) -> Seq<Seq<char>> {
    own_deps_of(s, refs(s))
}

/// A reference's source and key: `SLASHA.<key>` is a system value,
/// `<service>.<key>` a service's variable, anything without a dot a variable
/// of the application.
pub open spec fn token_spec(s: Seq<char>) -> (RefSourceModel, Seq<char>) {
    match split_once(s, '.') {
        Some((ns, key)) => if ns == "SLASHA"@ {
            (RefSourceModel::System, trim(key))
        } else {
            (RefSourceModel::Service(trim(ns)), trim(key))
        },
        None => (RefSourceModel::Own, trim(s)),
    }
}

/// The text with each reference replaced by the matching entry of `vals`.
pub open spec fn splice_from(s: Seq<char>, rs: Seq<(int, int)>, vals: Seq<Seq<char>>, k: int, last: int) -> Seq<char>
    decreases rs.len() - k,
{
    if k < 0 || k >= rs.len() {
        s.subrange(last, s.len() as int)
    } else {
        s.subrange(last, rs[k].0) + vals[k] + splice_from(s, rs, vals, k + 1, rs[k].1 + 2)
    }
}

pub open spec fn splice(s: Seq<char>, vals: Seq<Seq<char>>) -> Seq<char> {
    splice_from(s, refs(s), vals, 0, 0)
}

/// A found reference: a `${{` at `r.0` whose first `}` is at `r.1`, followed
/// by another `}`.
pub open spec fn ref_shape(s: Seq<char>, r: (int, int)) -> bool {
    &&& ref_at(s, r.0)
    &&& r.1 == find_from(s, '}', r.0 + 3)
    &&& r.0 + 3 <= r.1
    &&& r.1 + 2 <= s.len()
}

proof fn lemma_refs_from_shape(s: Seq<char>, i: int)
    requires
        0 <= i,
    ensures
        forall|k: int|
            0 <= k < refs_from(s, i).len() ==> i <= (#[trigger] refs_from(s, i)[k]).0 && ref_shape(
                s,
                refs_from(s, i)[k],
            ),
        forall|k: int|
            0 <= k < refs_from(s, i).len() - 1 ==> (#[trigger] refs_from(s, i)[k]).1 + 2
                <= refs_from(s, i)[k + 1].0,
    decreases s.len() - i,
{
    if i < s.len() {
        if ref_at(s, i) {
            let j = find_from(s, '}', i + 3);
            lemma_find_from_bounds(s, '}', i + 3);
            lemma_refs_from_shape(s, j + 2);
            let rest = refs_from(s, j + 2);
            let all = refs_from(s, i);
            assert(all == seq![(i, j)] + rest);
            assert forall|k: int| 0 <= k < all.len() - 1 implies (#[trigger] all[k]).1 + 2
                <= all[k + 1].0 by {
                assert(all[k + 1] == rest[k]);
                if k > 0 {
                    assert(all[k] == rest[k - 1]);
                }
            }
            assert forall|k: int| 0 <= k < all.len() implies i <= (#[trigger] all[k]).0 && ref_shape(
                s,
                all[k],
            ) by {
                if k > 0 {
                    assert(all[k] == rest[k - 1]);
                }
            }
        } else {
            lemma_refs_from_shape(s, i + 1);
            assert(refs_from(s, i) == refs_from(s, i + 1));
        }
    }
}

/// Whether a reference starts at `i`, and where its first `}` is.
fn ref_at_exec(v: &[char], i: usize) -> (r: Option<usize>)
    requires
        i < v@.len(),
    ensures
        r is Some <==> ref_at(v@, i as int),
        r matches Some(j) ==> j == find_from(v@, '}', i + 3),
{
    if v.len() - i < 3 {
        return None;
    }
    if v[i] != '$' || v[i + 1] != '{' || v[i + 2] != '{' {
        return None;
    }
    match find_exec(v, '}', i + 3) {
        None => None,
        Some(j) => {
            proof {
                lemma_find_from_bounds(v@, '}', i + 3);
            }
            if j + 1 < v.len() && v[j + 1] == '}' {
                Some(j)
            } else {
                None
            }
        },
    }
}

/// The references of a value, as `$` and first `}` positions.
fn ref_positions(v: &[char]) -> (r: Vec<(usize, usize)>)
    ensures
        r@.len() == refs(v@).len(),
        forall|k: int|
            0 <= k < r@.len() ==> (#[trigger] r@[k]).0 as int == refs(v@)[k].0 && r@[k].1 as int
                == refs(v@)[k].1,
{
    let mut r: Vec<(usize, usize)> = Vec::new();
    let ghost mut acc: Seq<(int, int)> = Seq::empty();
    let mut i: usize = 0;
    while i < v.len()
        invariant
            i <= v@.len(),
            refs(v@) == acc + refs_from(v@, i as int),
            r@.len() == acc.len(),
            forall|k: int|
                0 <= k < r@.len() ==> (#[trigger] r@[k]).0 as int == acc[k].0 && r@[k].1 as int
                    == acc[k].1,
        decreases v@.len() - i,
    {
        match ref_at_exec(v, i) {
            Some(j) => {
                proof {
                    lemma_find_from_bounds(v@, '}', i + 3);
                    assert(refs_from(v@, i as int) == seq![(i as int, j as int)] + refs_from(
                        v@,
                        j + 2,
                    ));
                    assert(acc + (seq![(i as int, j as int)] + refs_from(v@, j + 2)) == acc.push(
                        (i as int, j as int),
                    ) + refs_from(v@, j + 2));
                    acc = acc.push((i as int, j as int));
                }
                r.push((i, j));
                i = j + 2;
            },
            None => {
                i = i + 1;
            },
        }
    }
    proof {
        assert(refs_from(v@, i as int) == Seq::<(int, int)>::empty());
        assert(acc + Seq::<(int, int)>::empty() == acc);
    }
    r
}

/// Whether a value holds at least one reference.
pub fn contains_env_ref(value: &str) -> (b: bool)
    ensures
        b == (refs(value@).len() > 0),
{
    let v = chars_of(value);
    let rs = ref_positions(v.as_slice());
    rs.len() > 0
}

/// Reads the trimmed inside of a reference as a source and a key.
pub fn parse_single_ref(s: &[char]) -> (t: EnvToken)
    ensures
        (source_model(t.source), t.key@) == token_spec(s@),
{
    match find_exec(s, '.', 0) {
        Some(j) => {
            proof {
                lemma_find_from_bounds(s@, '.', 0);
            }
            let n = s.len();
            assert(j < n);
            let ns = slice_to_vec(s, 0, j);
            let key = slice_to_vec(s, j + 1, n);
            let key_t = trim_vec(key.as_slice());
            let slasha = chars_of("SLASHA");
            if chars_eq(ns.as_slice(), slasha.as_slice()) {
                EnvToken { source: RefSource::System, key: string_of(key_t.as_slice()) }
            } else {
                let ns_t = trim_vec(ns.as_slice());
                EnvToken {
                    source: RefSource::Service(string_of(ns_t.as_slice())),
                    key: string_of(key_t.as_slice()),
                }
            }
        },
        None => {
            let t = trim_vec(s);
            EnvToken { source: RefSource::Own, key: string_of(t.as_slice()) }
        },
    }
}

/// The sources and keys of all references of a value, in order.
pub fn env_tokens(value: &str) -> (r: Vec<EnvToken>)
    ensures
        r@.len() == refs(value@).len(),
        forall|k: int|
            0 <= k < r@.len() ==> (source_model((#[trigger] r@[k]).source), r@[k].key@)
                == token_spec(ref_inner(value@, refs(value@)[k])),
{
    let v = chars_of(value);
    let rs = ref_positions(v.as_slice());
    proof {
        lemma_refs_from_shape(v@, 0);
    }
    let mut r: Vec<EnvToken> = Vec::new();
    let mut k: usize = 0;
    while k < rs.len()
        invariant
            k <= rs@.len(),
            v@ == value@,
            rs@.len() == refs(v@).len(),
            forall|q: int|
                0 <= q < rs@.len() ==> (#[trigger] rs@[q]).0 as int == refs(v@)[q].0 && rs@[q].1 as int
                    == refs(v@)[q].1,
            forall|q: int|
                0 <= q < refs(v@).len() ==> (#[trigger] refs(v@)[q]).0 + 3 <= refs(v@)[q].1
                    && refs(v@)[q].1 + 2 <= v@.len(),
            r@.len() == k,
            forall|q: int|
                0 <= q < k ==> (source_model((#[trigger] r@[q]).source), r@[q].key@) == token_spec(
                    ref_inner(value@, refs(value@)[q]),
                ),
        decreases rs@.len() - k,
    {
        let (a, b) = rs[k];
        assert(refs(v@)[k as int].0 + 3 <= refs(v@)[k as int].1);
        let (lo, hi) = trim_bounds(v.as_slice(), a + 3, b);
        let inner = slice_to_vec(v.as_slice(), lo, hi);
        let t = parse_single_ref(inner.as_slice());
        r.push(t);
        k = k + 1;
    }
    r
}

/// The references of a value that name another variable of the same
/// application, in order.
pub fn collect_env_dependencies(value: &str) -> (r: Vec<String>)
    ensures
        r@.map_values(|x: String| x@) == own_deps(value@),
{
    let v = chars_of(value);
    let rs = ref_positions(v.as_slice());
    proof {
        lemma_refs_from_shape(v@, 0);
    }
    let ghost all = refs(v@);
    let mut r: Vec<String> = Vec::new();
    let mut k: usize = 0;
    while k < rs.len()
        invariant
            k <= rs@.len(),
            v@ == value@,
            all == refs(v@),
            rs@.len() == all.len(),
            forall|q: int|
                0 <= q < rs@.len() ==> (#[trigger] rs@[q]).0 as int == all[q].0 && rs@[q].1 as int
                    == all[q].1,
            forall|q: int|
                0 <= q < all.len() ==> (#[trigger] all[q]).0 + 3 <= all[q].1 && all[q].1 + 2
                    <= v@.len(),
            r@.map_values(|x: String| x@) == own_deps_of(v@, all.take(k as int)),
        decreases rs@.len() - k,
    {
        let (a, b) = rs[k];
        assert(all[k as int].0 + 3 <= all[k as int].1);
        let (lo, hi) = trim_bounds(v.as_slice(), a + 3, b);
        let inner = slice_to_vec(v.as_slice(), lo, hi);
        proof {
            assert(all.take(k + 1).drop_last() == all.take(k as int));
            assert(all.take(k + 1).last() == all[k as int]);
            assert(inner@ == ref_inner(v@, all[k as int]));
        }
        if !contains_char(inner.as_slice(), '.') {
            let ghost old_r = r@.map_values(|x: String| x@);
            let s = string_of(inner.as_slice());
            r.push(s);
            proof {
                assert(r@.map_values(|x: String| x@) == old_r.push(s@));
            }
        }
        k = k + 1;
    }
    proof {
        assert(all.take(rs@.len() as int) == all);
    }
    r
}

/// The keys of a list of variables are pairwise different.
pub open spec fn keys_distinct(vars: Seq<(String, String)>) -> bool {
    forall|i: int, j: int| 0 <= i < j < vars.len() ==> vars[i].0@ != vars[j].0@
}

/// Index of the variable named `key`, or -1.
pub open spec fn key_index(vars: Seq<(String, String)>, key: Seq<char>, i: int) -> int
    decreases vars.len() - i,
{
    if i < 0 || i >= vars.len() {
        -1
    } else if vars[i].0@ == key {
        i
    } else {
        key_index(vars, key, i + 1)
    }
}

/// The variables that the variable at `k` references, as indices (a
/// reference to a name no variable has is left out).
pub open spec fn dep_indices_of(vars: Seq<(String, String)>, names: Seq<Seq<char>>) -> Seq<usize>
    decreases names.len(),
{
    if names.len() == 0 {
        Seq::empty()
    } else {
        let prev = dep_indices_of(vars, names.drop_last());
        let idx = key_index(vars, names.last(), 0);
        if idx < 0 {
            prev
        } else {
            prev.push(idx as usize)
        }
    }
}

/// The dependency graph of a list of variables.
pub open spec fn env_graph(vars: Seq<(String, String)>) -> Seq<Seq<usize>> {
    Seq::new(vars.len(), |k: int| dep_indices_of(vars, own_deps(vars[k].1@)))
}

proof fn lemma_key_index_bounds(vars: Seq<(String, String)>, key: Seq<char>, i: int)
    requires
        0 <= i,
    ensures
        key_index(vars, key, i) == -1 || (i <= key_index(vars, key, i) < vars.len()
            && vars[key_index(vars, key, i)].0@ == key),
    decreases vars.len() - i,
{
    if i < vars.len() && vars[i].0@ != key {
        lemma_key_index_bounds(vars, key, i + 1);
    }
}

fn key_index_exec(vars: &[(String, String)], key: &[char]) -> (r: Option<usize>)
    ensures
        match r {
            Some(i) => i as int == key_index(vars@, key@, 0),
            None => key_index(vars@, key@, 0) == -1,
        },
{
    let mut i: usize = 0;
    while i < vars.len()
        invariant
            i <= vars@.len(),
            key_index(vars@, key@, 0) == key_index(vars@, key@, i as int),
        decreases vars@.len() - i,
    {
        let name = chars_of(vars[i].0.as_str());
        if chars_eq(name.as_slice(), key) {
            return Some(i);
        }
        i = i + 1;
    }
    None
}

fn dep_indices(vars: &[(String, String)], names: &Vec<String>) -> (r: Vec<usize>)
    ensures
        r@ == dep_indices_of(vars@, names@.map_values(|x: String| x@)),
        forall|p: int| 0 <= p < r@.len() ==> (#[trigger] r@[p]) < vars@.len(),
{
    let ghost ns = names@.map_values(|x: String| x@);
    let mut r: Vec<usize> = Vec::new();
    let mut q: usize = 0;
    while q < names.len()
        invariant
            q <= names@.len(),
            ns == names@.map_values(|x: String| x@),
            r@ == dep_indices_of(vars@, ns.take(q as int)),
            forall|p: int| 0 <= p < r@.len() ==> (#[trigger] r@[p]) < vars@.len(),
        decreases names@.len() - q,
    {
        let key = chars_of(names[q].as_str());
        proof {
            assert(ns.take(q + 1).drop_last() == ns.take(q as int));
            assert(ns.take(q + 1).last() == key@);
            lemma_key_index_bounds(vars@, key@, 0);
        }
        match key_index_exec(vars, key.as_slice()) {
            Some(i) => {
                r.push(i);
            },
            None => {},
        }
        q = q + 1;
    }
    proof {
        assert(ns.take(names@.len() as int) == ns);
    }
    r
}

/// The keys of the variables whose index `order` leaves out, in input order.
pub open spec fn left_out_keys(vars: Seq<(String, String)>, order: Seq<usize>) -> Seq<Seq<char>>
    decreases vars.len(),
{
    if vars.len() == 0 {
        Seq::empty()
    } else {
        let prev = left_out_keys(vars.drop_last(), order);
        if occurs(order, (vars.len() - 1) as usize) {
            prev
        } else {
            prev.push(vars.last().0@)
        }
    }
}

/// The dependency lists of a list of variables, as indices.
fn env_deps(raw_vars: &[(String, String)]) -> (deps: Vec<Vec<usize>>)
    ensures
        deps@.len() == raw_vars@.len(),
        views(deps@) == env_graph(raw_vars@),
        graph_ok(views(deps@)),
{
    let n = raw_vars.len();
    let mut deps: Vec<Vec<usize>> = Vec::new();
    let mut k: usize = 0;
    while k < n
        invariant
            k <= n,
            n == raw_vars@.len(),
            deps@.len() == k,
            forall|i: int| 0 <= i < k ==> (#[trigger] deps@[i])@ == env_graph(raw_vars@)[i],
            forall|i: int, p: int| 0 <= i < k && 0 <= p < deps@[i]@.len() ==> (#[trigger] deps@[i]@[p]) < n,
        decreases n - k,
    {
        let names = collect_env_dependencies(raw_vars[k].1.as_str());
        let d = dep_indices(raw_vars, &names);
        deps.push(d);
        k = k + 1;
    }
    proof {
        assert(views(deps@) =~= env_graph(raw_vars@));
        assert forall|i: int, p: int|
            0 <= i < views(deps@).len() && 0 <= p < views(deps@)[i].len() implies (#[trigger] views(deps@)[i][p]) < views(deps@).len() by {
            assert(views(deps@)[i] == deps@[i]@);
        }
    }
    deps
}

/// The variables at the positions `order` lists, in that order.
fn pick_in_order(raw_vars: &[(String, String)], order: &Vec<usize>) -> (sorted: Vec<(String, String)>)
    requires
        forall|q: int| 0 <= q < order@.len() ==> (#[trigger] order@[q]) < raw_vars@.len(),
    ensures
        sorted@.len() == order@.len(),
        forall|q: int|
            0 <= q < order@.len() ==> (#[trigger] sorted@[q]).0@ == raw_vars@[order@[q] as int].0@
                && sorted@[q].1@ == raw_vars@[order@[q] as int].1@,
{
    let mut sorted: Vec<(String, String)> = Vec::new();
    let mut i: usize = 0;
    while i < order.len()
        invariant
            i <= order@.len(),
            forall|q: int| 0 <= q < order@.len() ==> (#[trigger] order@[q]) < raw_vars@.len(),
            sorted@.len() == i,
            forall|q: int|
                0 <= q < i ==> (#[trigger] sorted@[q]).0@ == raw_vars@[order@[q] as int].0@
                    && sorted@[q].1@ == raw_vars@[order@[q] as int].1@,
        decreases order@.len() - i,
    {
        let idx = order[i];
        let key = raw_vars[idx].0.clone();
        let val = raw_vars[idx].1.clone();
        sorted.push((key, val));
        i = i + 1;
    }
    sorted
}

/// The keys of the variables whose position `order` does not list, in input
/// order; not empty when `order` lists fewer positions than there are
/// variables.
fn keys_left_out(raw_vars: &[(String, String)], order: &Vec<usize>) -> (keys: Vec<String>)
    ensures
        keys@.map_values(|k: String| k@) == left_out_keys(raw_vars@, order@),
        order@.len() < raw_vars@.len() ==> keys@.len() > 0,
{
    let n = raw_vars.len();
    let mut keys: Vec<String> = Vec::new();
    let mut i: usize = 0;
    let ghost missing: usize = if order@.len() < n {
        lemma_missing_node(order@, n)
    } else {
        n
    };
    while i < n
        invariant
            i <= n,
            n == raw_vars@.len(),
            order@.len() < n ==> missing < n && !occurs(order@, missing),
            keys@.map_values(|k: String| k@) == left_out_keys(raw_vars@.take(i as int), order@),
            order@.len() < n && missing < i ==> keys@.len() > 0,
        decreases n - i,
    {
        let ghost before_push = keys@.map_values(|k: String| k@);
        proof {
            assert(raw_vars@.take(i + 1).drop_last() == raw_vars@.take(i as int));
            assert(raw_vars@.take(i + 1).last() == raw_vars@[i as int]);
        }
        if !occurs_exec(order, i) {
            let key = raw_vars[i].0.clone();
            keys.push(key);
            proof {
                assert(keys@.map_values(|k: String| k@) == before_push.push(raw_vars@[i as int].0@));
            }
        }
        i = i + 1;
    }
    proof {
        assert(raw_vars@.take(n as int) == raw_vars@);
    }
    keys
}

/// Orders variables so that each comes after every variable it references.
/// When the references form a cycle, fails and names, in input order, the
/// variables that cannot be placed: those that reference, directly or through
/// others, a variable on a cycle.
pub fn topo_sort_env(raw_vars: &[(String, String)]) -> (r: Result<Vec<(String, String)>, EnvError>)
    requires
        keys_distinct(raw_vars@),
    ensures
        r is Ok <==> orderable(env_graph(raw_vars@)),
        match r {
            Ok(sorted) => exists|order: Seq<usize>|
                valid_order(env_graph(raw_vars@), order) && sorted@.len() == order.len()
                    && forall|i: int|
                    0 <= i < order.len() ==> (#[trigger] sorted@[i]).0@ == raw_vars@[order[i] as int].0@
                        && sorted@[i].1@ == raw_vars@[order[i] as int].1@,
            Err(EnvError::CircularDependency(keys)) => keys@.len() > 0 && exists|order: Seq<usize>|
                valid_prefix(env_graph(raw_vars@), order) && rest_blocked(env_graph(raw_vars@), order)
                    && keys@.map_values(|k: String| k@) == left_out_keys(raw_vars@, order),
        },
{
    let deps = env_deps(raw_vars);
    let order = topo_order(&deps);
    if order.len() == raw_vars.len() {
        let sorted = pick_in_order(raw_vars, &order);
        Ok(sorted)
    } else {
        let keys = keys_left_out(raw_vars, &order);
        Err(EnvError::CircularDependency(keys))
    }
}

/// Replaces each reference of `value`, in order, by the matching entry of
/// `resolved` (the value its source and key resolve to), keeping the text
/// between references as it is.
pub fn splice_env_value(value: &str, resolved: &Vec<String>) -> (r: String)
    requires
        resolved@.len() == refs(value@).len(),
    ensures
        r@ == splice(value@, resolved@.map_values(|x: String| x@)),
{
    let v = chars_of(value);
    let rs = ref_positions(v.as_slice());
    proof {
        lemma_refs_from_shape(v@, 0);
    }
    let ghost all = refs(v@);
    let ghost vals = resolved@.map_values(|x: String| x@);
    let mut out = String::new();
    let mut last: usize = 0;
    let mut k: usize = 0;
    while k < rs.len()
        invariant
            k <= rs@.len(),
            v@ == value@,
            all == refs(v@),
            vals == resolved@.map_values(|x: String| x@),
            rs@.len() == all.len(),
            resolved@.len() == all.len(),
            forall|q: int|
                0 <= q < rs@.len() ==> (#[trigger] rs@[q]).0 as int == all[q].0 && rs@[q].1 as int
                    == all[q].1,
            forall|q: int| 0 <= q < all.len() ==> 0 <= (#[trigger] all[q]).0 && ref_shape(v@, all[q]),
            forall|q: int| 0 <= q < all.len() - 1 ==> (#[trigger] all[q]).1 + 2 <= all[q + 1].0,
            k == 0 ==> last == 0,
            k > 0 ==> last as int == all[k - 1].1 + 2,
            last <= v@.len(),
            k < all.len() ==> last <= all[k as int].0,
            out@ + splice_from(v@, all, vals, k as int, last as int) == splice(v@, vals),
        decreases rs@.len() - k,
    {
        let (a, b) = rs[k];
        let piece = substring(v.as_slice(), last, a);
        let ghost before = out@;
        out.append(piece.as_str());
        out.append(resolved[k].as_str());
        proof {
            assert(vals[k as int] == resolved@[k as int]@);
            assert(out@ == before + v@.subrange(last as int, a as int) + vals[k as int]);
            assert(splice_from(v@, all, vals, k as int, last as int) == v@.subrange(last as int, a as int)
                + vals[k as int] + splice_from(v@, all, vals, k + 1, b + 2));
            assert(out@ + splice_from(v@, all, vals, k + 1, b + 2) == before + splice_from(
                v@,
                all,
                vals,
                k as int,
                last as int,
            ));
            if k + 1 < all.len() {
                assert(all[k as int].1 + 2 <= all[k + 1].0);
            }
            assert(ref_shape(v@, all[k as int]));
            assert(b as int == all[k as int].1);
            assert(b + 2 <= v@.len());
        }
        let len = v.len();
        last = b + 2;
        k = k + 1;
    }
    let tail = substring(v.as_slice(), last, v.len());
    let ghost before = out@;
    out.append(tail.as_str());
    proof {
        assert(out@ == before + splice_from(v@, all, vals, k as int, last as int));
    }
    out
}

/// The source and key of each reference of `s`, in order.
pub open spec fn ref_tokens(s: Seq<char>) -> Seq<(RefSourceModel, Seq<char>)> {
    refs(s).map_values(|r: (int, int)| token_spec(ref_inner(s, r)))
}

/// Whether `resolver` may answer `out` when asked for the source and key of
/// `tok`.
pub open spec fn lookup_gives<F: Fn(&RefSource, &str) -> Result<String, E>, E>(
    resolver: F,
    tok: (RefSourceModel, Seq<char>),
    out: Result<String, E>,
) -> bool {
    exists|src: RefSource, key: &str|
        source_model(src) == tok.0 && key@ == tok.1 && #[trigger] call_ensures(resolver, (&src, key), out)
}

/// Whether `vals` are answers `resolver` may give, in order, for the first
/// `vals.len()` of `toks`.
pub open spec fn looked_up<F: Fn(&RefSource, &str) -> Result<String, E>, E>(
    resolver: F,
    toks: Seq<(RefSourceModel, Seq<char>)>,
    vals: Seq<String>,
) -> bool {
    &&& vals.len() <= toks.len()
    &&& forall|k: int| 0 <= k < vals.len() ==> lookup_gives(resolver, toks[k], Ok(#[trigger] vals[k]))
}

/// Replaces each reference of `value` by what `resolver` gives for its
/// source and key, asking for the references one at a time, left to right.
/// The first lookup that fails ends the work, and its error is the result;
/// otherwise the text between references is kept as it is.
pub fn resolve_env_value<F: Fn(&RefSource, &str) -> Result<String, E>, E>(value: &str, resolver: F) -> (r: Result<String, E>)
    requires
        forall|src: &RefSource, key: &str| #[trigger] call_requires(resolver, (src, key)),
    ensures
        match r {
            Ok(out) => exists|vals: Seq<String>|
                #[trigger] looked_up(resolver, ref_tokens(value@), vals)
                    && vals.len() == ref_tokens(value@).len()
                    && out@ == splice(value@, vals.map_values(|x: String| x@)),
            Err(e) => exists|vals: Seq<String>|
                #[trigger] looked_up(resolver, ref_tokens(value@), vals)
                    && vals.len() < ref_tokens(value@).len()
                    && lookup_gives(resolver, ref_tokens(value@)[vals.len() as int], Err(e)),
        },
{
    let tokens = env_tokens(value);
    let ghost toks = ref_tokens(value@);
    let mut resolved: Vec<String> = Vec::new();
    let mut k: usize = 0;
    while k < tokens.len()
        invariant
            k <= tokens@.len(),
            toks == ref_tokens(value@),
            tokens@.len() == toks.len(),
            forall|q: int| 0 <= q < tokens@.len() ==> (source_model((#[trigger] tokens@[q]).source), tokens@[q].key@) == toks[q],
            forall|src: &RefSource, key: &str| #[trigger] call_requires(resolver, (src, key)),
            resolved@.len() == k,
            forall|q: int| 0 <= q < k ==> lookup_gives(resolver, toks[q], Ok(#[trigger] resolved@[q])),
        decreases tokens@.len() - k,
    {
        let src = &tokens[k].source;
        let key = tokens[k].key.as_str();
        let answer = resolver(src, key);
        proof {
            assert(source_model(*src) == toks[k as int].0 && key@ == toks[k as int].1);
            assert(call_ensures(resolver, (src, key), answer));
        }
        match answer {
            Ok(v) => {
                let ghost before = resolved@;
                resolved.push(v);
                proof {
                    assert forall|q: int| 0 <= q < k + 1 implies lookup_gives(resolver, toks[q], Ok(#[trigger] resolved@[q])) by {
                        if q < k {
                            assert(resolved@[q] == before[q]);
                        }
                    }
                }
            },
            Err(e) => {
                proof {
                    assert(lookup_gives(resolver, toks[k as int], Err(e)));
                    assert(looked_up(resolver, toks, resolved@));
                }
                return Err(e);
            },
        }
        k = k + 1;
    }
    let out = splice_env_value(value, &resolved);
    proof {
        assert(looked_up(resolver, toks, resolved@));
    }
    Ok(out)
}

fn occurs_exec(order: &Vec<usize>, x: usize) -> (b: bool)
    ensures
        b == occurs(order@, x),
{
    let mut i: usize = 0;
    while i < order.len()
        invariant
            i <= order@.len(),
            forall|q: int| 0 <= q < i ==> order@[q] != x,
        decreases order@.len() - i,
    {
        if order[i] == x {
            return true;
        }
        i = i + 1;
    }
    false
}

} // verus!
