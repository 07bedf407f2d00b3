//! Resolving an application's environment: every `${{ ... }}` reference is
//! replaced by the value it names — another variable of the application
//! (resolved first), a platform value, or a variable a running service
//! exports (itself resolved within the service, to a bounded depth).
use crate::docker::env_resolver::{contains_env_ref, env_graph, env_tokens, keys_distinct, ref_inner, refs, splice_env_value, source_model, splice, token_spec, topo_sort_env, EnvError, EnvToken, RefSource, RefSourceModel};
use crate::topo::{orderable, valid_order};
use crate::env_map::{env_get, env_lookup, env_set, lemma_lookup_pairs, pairs_lookup, pairs_of};
use crate::models::{App, ServiceEnv, ServiceKind};
use crate::text::{ascii_lowercase, ascii_lowercase_vec, chars_eq, chars_of, decimal, decimal_string, lit};
use vstd::prelude::*;
use vstd::string::StringExecFns;

verus! {

/// Why an environment could not be resolved.
#[derive(Clone, Debug, PartialEq, Eq)]
pub enum EnvResolveError {
    /// No service of the application has this name.
    ServiceNotFound(String),
    /// The named service is not running.
    ServiceNotRunning(String),
    /// Any other failure, with its message.
    EnvResolveFailed(String),
}

/// The mathematical form of an [`EnvResolveError`].
pub enum EnvErr {
    ServiceNotFound(Seq<char>),
    ServiceNotRunning(Seq<char>),
    Failed(Seq<char>),
}

pub open spec fn err_view(e: EnvResolveError) -> EnvErr {
    match e {
        EnvResolveError::ServiceNotFound(s) => EnvErr::ServiceNotFound(s@),
        EnvResolveError::ServiceNotRunning(s) => EnvErr::ServiceNotRunning(s@),
        EnvResolveError::EnvResolveFailed(s) => EnvErr::Failed(s@),
    }
}

pub open spec fn result_view(r: Result<String, EnvResolveError>) -> Result<Seq<char>, EnvErr> {
    match r {
        Ok(s) => Ok(s@),
        Err(e) => Err(err_view(e)),
    }
}

/// `str::eq_ignore_ascii_case`.
pub open spec fn eq_ignore_ascii_case(a: Seq<char>, b: Seq<char>) -> bool {
    ascii_lowercase(a) == ascii_lowercase(b)
}

/// The index of the first service whose name equals `name` without regard
/// to ASCII case, or -1.
pub open spec fn find_service(services: Seq<ServiceEnv>, name: Seq<char>, i: int) -> int
    decreases services.len() - i,
{
    if i < 0 || i >= services.len() {
        -1
    } else if eq_ignore_ascii_case(services[i].name@, name) {
        i
    } else {
        find_service(services, name, i + 1)
    }
}

/// The source and key of each reference of a value, in order.
pub open spec fn tokens_of(value: Seq<char>) -> Seq<(RefSourceModel, Seq<char>)> {
    Seq::new(refs(value).len(), |k: int| token_spec(ref_inner(value, refs(value)[k])))
}

pub open spec fn missing_dependency(key: Seq<char>) -> Seq<char> {
    "Missing variable dependency: "@ + key
}

pub open spec fn unknown_system_key(key: Seq<char>) -> Seq<char> {
    "Unknown system key: "@ + key
}

pub open spec fn nesting_exceeded(max: nat, service: Seq<char>) -> Seq<char> {
    "Environment variable reference nesting exceeded "@ + decimal(max)
        + " levels while resolving service \""@ + service + "\"; check for a circular reference"@
}

pub open spec fn not_exported(service: Seq<char>, key: Seq<char>) -> Seq<char> {
    "Service \""@ + service + "\" does not export env key \""@ + key + "\""@
}

/// A value exported by service `s`, resolved within the service: its own
/// variables, its name and container name; nesting deeper than `max` fails.
pub open spec fn scoped_value(raw: Seq<char>, s: ServiceEnv, depth: nat, max: nat) -> Result<Seq<char>, EnvErr>
    decreases max - depth, tokens_of(raw).len() + 1,
{
    match scoped_tokens(tokens_of(raw), s, depth, max, 0) {
        Ok(vals) => Ok(splice(raw, vals)),
        Err(e) => Err(e),
    }
}

pub open spec fn scoped_tokens(toks: Seq<(RefSourceModel, Seq<char>)>, s: ServiceEnv, depth: nat, max: nat, k: int) -> Result<Seq<Seq<char>>, EnvErr>
    decreases max - depth, toks.len() - k,
{
    if k < 0 || k >= toks.len() {
        Ok(Seq::empty())
    } else {
        match scoped_ref(toks[k], s, depth, max) {
            Err(e) => Err(e),
            Ok(v) => match scoped_tokens(toks, s, depth, max, k + 1) {
                Ok(rest) => Ok(seq![v] + rest),
                Err(e) => Err(e),
            },
        }
    }
}

pub open spec fn scoped_ref(tok: (RefSourceModel, Seq<char>), s: ServiceEnv, depth: nat, max: nat) -> Result<Seq<char>, EnvErr>
    decreases max - depth, 0int,
{
    let key = tok.1;
    match tok.0 {
        RefSourceModel::Own => match env_lookup(s.env@, key) {
            None => Err(EnvErr::Failed(missing_dependency(key))),
            Some(nested) => if refs(nested).len() > 0 {
                if depth + 1 > max {
                    Err(EnvErr::Failed(nesting_exceeded(max, s.name@)))
                } else {
                    scoped_value(nested, s, depth + 1, max)
                }
            } else {
                Ok(nested)
            },
        },
        RefSourceModel::System => if key == "service_name"@ {
            Ok(s.name@)
        } else if key == "service_container_name"@ {
            Ok("slasha-svc-ctr-"@ + s.id@)
        } else {
            Err(EnvErr::Failed(unknown_system_key(key)))
        },
        RefSourceModel::Service(_) => Err(EnvErr::Failed("Service references not supported in this context"@)),
    }
}

/// The value a reference in one of the application's variables resolves
/// to, given the variables resolved so far.
pub open spec fn app_ref(
    tok: (RefSourceModel, Seq<char>),
    resolved: Seq<(Seq<char>, Seq<char>)>,
    app: App,
    services: Seq<ServiceEnv>,
    max: nat,
) -> Result<Seq<char>, EnvErr> {
    let key = tok.1;
    match tok.0 {
        RefSourceModel::Own => match pairs_lookup(resolved, key) {
            Some(v) => Ok(v),
            None => Err(EnvErr::Failed(missing_dependency(key))),
        },
        RefSourceModel::System => if key == "app_name"@ {
            Ok(app.name@)
        } else if key == "app_slug"@ {
            Ok(app.slug@)
        } else if key == "managed_data_path"@ {
            Ok("/data"@)
        } else {
            Err(EnvErr::Failed(unknown_system_key(key)))
        },
        RefSourceModel::Service(name) => {
            let i = find_service(services, name, 0);
            if i < 0 {
                Err(EnvErr::ServiceNotFound(name))
            } else if !services[i].running {
                Err(EnvErr::ServiceNotRunning(name))
            } else if key == "service_name"@ {
                Ok(services[i].name@)
            } else {
                match env_lookup(services[i].env@, key) {
                    None => Err(EnvErr::Failed(not_exported(name, key))),
                    Some(raw) => if refs(raw).len() == 0 {
                        Ok(raw)
                    } else {
                        scoped_value(raw, services[i], 0, max)
                    },
                }
            }
        },
    }
}

pub open spec fn app_tokens(
    toks: Seq<(RefSourceModel, Seq<char>)>,
    resolved: Seq<(Seq<char>, Seq<char>)>,
    app: App,
    services: Seq<ServiceEnv>,
    max: nat,
    k: int,
) -> Result<Seq<Seq<char>>, EnvErr>
    decreases toks.len() - k,
{
    if k < 0 || k >= toks.len() {
        Ok(Seq::empty())
    } else {
        match app_ref(toks[k], resolved, app, services, max) {
            Err(e) => Err(e),
            Ok(v) => match app_tokens(toks, resolved, app, services, max, k + 1) {
                Ok(rest) => Ok(seq![v] + rest),
                Err(e) => Err(e),
            },
        }
    }
}

/// Platform references name the application itself: wherever
/// `${{ SLASHA.app_slug }}` stands among a value's references, it resolves
/// to the application's slug, and `${{ SLASHA.app_name }}` to its display
/// name, whatever the other variables and services are.
pub proof fn lemma_platform_refs_resolve_to_app(
    toks: Seq<(RefSourceModel, Seq<char>)>,
    resolved: Seq<(Seq<char>, Seq<char>)>,
    app: App,
    services: Seq<ServiceEnv>,
    max: nat,
    k: int,
)
    requires
        0 <= k <= toks.len(),
    ensures
        app_tokens(toks, resolved, app, services, max, k) matches Ok(vals) ==> {
            &&& vals.len() == toks.len() - k
            &&& forall|j: int| k <= j < toks.len() && (#[trigger] toks[j]) == (RefSourceModel::System, "app_slug"@) ==> vals[j - k] == app.slug@
            &&& forall|j: int| k <= j < toks.len() && (#[trigger] toks[j]) == (RefSourceModel::System, "app_name"@) ==> vals[j - k] == app.name@
        },
    decreases toks.len() - k,
{
    if k < toks.len() {
        lemma_platform_refs_resolve_to_app(toks, resolved, app, services, max, k + 1);
        if toks[k] == (RefSourceModel::System, "app_name"@) {
            assert(app_ref(toks[k], resolved, app, services, max) == Ok::<Seq<char>, EnvErr>(app.name@));
        }
        if toks[k] == (RefSourceModel::System, "app_slug"@) {
            if "app_slug"@ == "app_name"@ {
                reveal_strlit("app_slug");
                reveal_strlit("app_name");
                assert("app_slug"@[4] == "app_name"@[4]);
            }
            assert(app_ref(toks[k], resolved, app, services, max) == Ok::<Seq<char>, EnvErr>(app.slug@));
        }
        match app_tokens(toks, resolved, app, services, max, k) {
            Ok(vals) => {
                let v = app_ref(toks[k], resolved, app, services, max)->Ok_0;
                let rest = app_tokens(toks, resolved, app, services, max, k + 1)->Ok_0;
                assert(vals == seq![v] + rest);
                assert forall|j: int| k < j < toks.len() implies #[trigger] toks[j] == toks[j] && vals[j - k] == rest[j - (k + 1)] by {}
            },
            Err(_) => {},
        }
    }
}

/// The value of one of the application's variables once its references are
/// resolved; the first reference that fails, from the left, gives the error.
pub open spec fn app_value(value: Seq<char>, resolved: Seq<(Seq<char>, Seq<char>)>, app: App, services: Seq<ServiceEnv>, max: nat) -> Result<Seq<char>, EnvErr> {
    match app_tokens(tokens_of(value), resolved, app, services, max, 0) {
        Ok(vals) => Ok(splice(value, vals)),
        Err(e) => Err(e),
    }
}

proof fn lemma_find_service_bounds(services: Seq<ServiceEnv>, name: Seq<char>, i: int)
    requires
        0 <= i,
    ensures
        find_service(services, name, i) == -1 || (i <= find_service(services, name, i) < services.len()),
    decreases services.len() - i,
{
    if i < services.len() && !eq_ignore_ascii_case(services[i].name@, name) {
        lemma_find_service_bounds(services, name, i + 1);
    }
}

fn find_service_exec(services: &Vec<ServiceEnv>, name: &str) -> (r: Option<usize>)
    ensures
        match r {
            Some(i) => i as int == find_service(services@, name@, 0),
            None => find_service(services@, name@, 0) == -1,
        },
{
    let n = chars_of(name);
    let nl = ascii_lowercase_vec(n.as_slice());
    let mut i: usize = 0;
    while i < services.len()
        invariant
            i <= services@.len(),
            nl@ == ascii_lowercase(name@),
            find_service(services@, name@, 0) == find_service(services@, name@, i as int),
        decreases services@.len() - i,
    {
        let c = chars_of(services[i].name.as_str());
        let cl = ascii_lowercase_vec(c.as_slice());
        if chars_eq(cl.as_slice(), nl.as_slice()) {
            return Some(i);
        }
        i = i + 1;
    }
    None
}

fn failed(m: String) -> (e: EnvResolveError)
    ensures
        e == EnvResolveError::EnvResolveFailed(m),
{
    EnvResolveError::EnvResolveFailed(m)
}

fn token_value_scoped(t: &EnvToken, s: &ServiceEnv, depth: usize, max: usize) -> (r: Result<String, EnvResolveError>)
    requires
        depth <= max,
    ensures
        result_view(r) == scoped_ref((source_model(t.source), t.key@), *s, depth as nat, max as nat),
    decreases max - depth, 0int,
{
    proof {
        reveal_strlit("service_name");
        reveal_strlit("service_container_name");
    }
    match &t.source {
        RefSource::Own => match env_get(&s.env, t.key.as_str()) {
            None => {
                let mut m = lit("Missing variable dependency: ");
                m.append(t.key.as_str());
                Err(failed(m))
            },
            Some(nested) => {
                if contains_env_ref(nested.as_str()) {
                    if depth >= max {
                        Err(failed(nesting_message(max, s.name.as_str())))
                    } else {
                        resolve_service_scoped_value(nested.as_str(), s, depth + 1, max)
                    }
                } else {
                    Ok(nested)
                }
            },
        },
        RefSource::System => {
            let k = chars_of(t.key.as_str());
            let a = chars_of("service_name");
            let b = chars_of("service_container_name");
            if chars_eq(k.as_slice(), a.as_slice()) {
                Ok(s.name.clone())
            } else if chars_eq(k.as_slice(), b.as_slice()) {
                Ok(crate::docker::naming::service_container_name(s.id.as_str()))
            } else {
                let mut m = lit("Unknown system key: ");
                m.append(t.key.as_str());
                Err(failed(m))
            }
        },
        RefSource::Service(_) => Err(failed(lit("Service references not supported in this context"))),
    }
}

fn nesting_message(max: usize, service: &str) -> (m: String)
    ensures
        m@ == nesting_exceeded(max as nat, service@),
{
    let mut m = lit("Environment variable reference nesting exceeded ");
    m.append(decimal_string(max as u64).as_str());
    m.append(" levels while resolving service \"");
    m.append(service);
    m.append("\"; check for a circular reference");
    m
}

/// Resolves a value a service exports within that service: `${{ KEY }}`
/// names another of its variables (resolved in turn, at most `max` levels
/// deep), `${{ SLASHA.service_name }}` and
/// `${{ SLASHA.service_container_name }}` its name and container name;
/// references to other services fail.
pub fn resolve_service_scoped_value(raw: &str, s: &ServiceEnv, depth: usize, max: usize) -> (r: Result<String, EnvResolveError>)
    requires
        depth <= max,
    ensures
        result_view(r) == scoped_value(raw@, *s, depth as nat, max as nat),
    decreases max - depth, tokens_of(raw@).len() + 1,
{
    let toks = env_tokens(raw);
    let ghost tv = tokens_of(raw@);
    proof {
        assert(toks@.len() == tv.len());
        assert forall|k: int| 0 <= k < toks@.len() implies (source_model(#[trigger] toks@[k].source), toks@[k].key@) == tv[k] by {}
    }
    let mut vals: Vec<String> = Vec::new();
    let ghost mut pv: Seq<Seq<char>> = Seq::empty();
    let mut k: usize = 0;
    proof {
        lemma_prepend_empty(scoped_tokens(tv, *s, depth as nat, max as nat, 0));
    }
    while k < toks.len()
        invariant
            k <= toks@.len(),
            depth <= max,
            toks@.len() == tv.len(),
            tv == tokens_of(raw@),
            forall|q: int| 0 <= q < toks@.len() ==> (source_model(#[trigger] toks@[q].source), toks@[q].key@) == tv[q],
            pv == vals@.map_values(|x: String| x@),
            vals@.len() == k,
            scoped_tokens(tv, *s, depth as nat, max as nat, 0) == prepend(pv, scoped_tokens(tv, *s, depth as nat, max as nat, k as int)),
        decreases toks@.len() - k,
    {
        let v = token_value_scoped(&toks[k], s, depth, max);
        match v {
            Err(e) => {
                return Err(e);
            },
            Ok(val) => {
                proof {
                    lemma_prepend_push(pv, val@, scoped_tokens(tv, *s, depth as nat, max as nat, k + 1));
                    pv = pv.push(val@);
                }
                vals.push(val);
            },
        }
        k = k + 1;
    }
    proof {
        assert(pv + Seq::<Seq<char>>::empty() == pv);
    }
    let out = splice_env_value(raw, &vals);
    Ok(out)
}

/// A resolved prefix in front of the resolution of the rest.
pub open spec fn prepend(p: Seq<Seq<char>>, r: Result<Seq<Seq<char>>, EnvErr>) -> Result<Seq<Seq<char>>, EnvErr> {
    match r {
        Ok(rest) => Ok(p + rest),
        Err(e) => Err(e),
    }
}

proof fn lemma_prepend_empty(r: Result<Seq<Seq<char>>, EnvErr>)
    ensures
        r == prepend(Seq::empty(), r),
{
    match r {
        Ok(rest) => {
            assert(Seq::<Seq<char>>::empty() + rest == rest);
        },
        Err(_) => {},
    }
}

proof fn lemma_prepend_push(p: Seq<Seq<char>>, v: Seq<char>, r: Result<Seq<Seq<char>>, EnvErr>)
    ensures
        prepend(p, match r {
            Ok(rest) => Ok(seq![v] + rest),
            Err(e) => Err(e),
        }) == prepend(p.push(v), r),
{
    match r {
        Ok(rest) => {
            assert(p + (seq![v] + rest) == p.push(v) + rest);
        },
        Err(_) => {},
    }
}

fn token_value_app(
    t: &EnvToken,
    resolved: &Vec<(String, String)>,
    app: &App,
    services: &Vec<ServiceEnv>,
    max: usize,
) -> (r: Result<String, EnvResolveError>)
    ensures
        result_view(r) == app_ref((source_model(t.source), t.key@), pairs_of(resolved@), *app, services@, max as nat),
{
    proof {
        reveal_strlit("app_name");
        reveal_strlit("app_slug");
        reveal_strlit("managed_data_path");
        reveal_strlit("service_name");
    }
    match &t.source {
        RefSource::Own => match env_get(resolved, t.key.as_str()) {
            Some(v) => {
                proof {
                    lemma_lookup_pairs(resolved@, t.key@);
                }
                Ok(v)
            },
            None => {
                proof {
                    lemma_lookup_pairs(resolved@, t.key@);
                }
                let mut m = lit("Missing variable dependency: ");
                m.append(t.key.as_str());
                Err(failed(m))
            },
        },
        RefSource::System => {
            let k = chars_of(t.key.as_str());
            if chars_eq(k.as_slice(), chars_of("app_name").as_slice()) {
                Ok(app.name.clone())
            } else if chars_eq(k.as_slice(), chars_of("app_slug").as_slice()) {
                Ok(app.slug.clone())
            } else if chars_eq(k.as_slice(), chars_of("managed_data_path").as_slice()) {
                Ok(lit("/data"))
            } else {
                let mut m = lit("Unknown system key: ");
                m.append(t.key.as_str());
                Err(failed(m))
            }
        },
        RefSource::Service(name) => {
            match find_service_exec(services, name.as_str()) {
                None => Err(EnvResolveError::ServiceNotFound(name.clone())),
                Some(i) => {
                    proof {
                        lemma_find_service_bounds(services@, name@, 0);
                    }
                    let svc = &services[i];
                    if !svc.running {
                        return Err(EnvResolveError::ServiceNotRunning(name.clone()));
                    }
                    let k = chars_of(t.key.as_str());
                    if chars_eq(k.as_slice(), chars_of("service_name").as_slice()) {
                        return Ok(svc.name.clone());
                    }
                    match env_get(&svc.env, t.key.as_str()) {
                        None => {
                            let mut m = lit("Service \"");
                            m.append(name.as_str());
                            m.append("\" does not export env key \"");
                            m.append(t.key.as_str());
                            m.append("\"");
                            Err(failed(m))
                        },
                        Some(raw) => {
                            if !contains_env_ref(raw.as_str()) {
                                Ok(raw)
                            } else {
                                resolve_service_scoped_value(raw.as_str(), svc, 0, max)
                            }
                        },
                    }
                },
            }
        },
    }
}

/// Resolves one of the application's variables: each reference, from the
/// left, is replaced by what it names — `${{ KEY }}` an application variable
/// already resolved, `${{ SLASHA.app_name }}`, `${{ SLASHA.app_slug }}` and
/// `${{ SLASHA.managed_data_path }}` platform values, `${{ svc.KEY }}` a
/// variable the running service `svc` (named without regard to case)
/// exports, resolved within that service at most `max` levels deep, and
/// `${{ svc.service_name }}` its name. The first reference that fails gives
/// the error.
pub fn resolve_app_value(
    value: &str,
    resolved: &Vec<(String, String)>,
    app: &App,
    services: &Vec<ServiceEnv>,
    max: usize,
) -> (r: Result<String, EnvResolveError>)
    ensures
        result_view(r) == app_value(value@, pairs_of(resolved@), *app, services@, max as nat),
{
    let toks = env_tokens(value);
    let ghost tv = tokens_of(value@);
    let mut vals: Vec<String> = Vec::new();
    let ghost mut pv: Seq<Seq<char>> = Seq::empty();
    let mut k: usize = 0;
    proof {
        lemma_prepend_empty(app_tokens(tv, pairs_of(resolved@), *app, services@, max as nat, 0));
    }
    while k < toks.len()
        invariant
            k <= toks@.len(),
            toks@.len() == tv.len(),
            tv == tokens_of(value@),
            forall|q: int| 0 <= q < toks@.len() ==> (source_model(#[trigger] toks@[q].source), toks@[q].key@) == tv[q],
            pv == vals@.map_values(|x: String| x@),
            vals@.len() == k,
            app_tokens(tv, pairs_of(resolved@), *app, services@, max as nat, 0) == prepend(pv, app_tokens(tv, pairs_of(resolved@), *app, services@, max as nat, k as int)),
        decreases toks@.len() - k,
    {
        let v = token_value_app(&toks[k], resolved, app, services, max);
        match v {
            Err(e) => {
                return Err(e);
            },
            Ok(val) => {
                proof {
                    lemma_prepend_push(pv, val@, app_tokens(tv, pairs_of(resolved@), *app, services@, max as nat, k + 1));
                    pv = pv.push(val@);
                }
                vals.push(val);
            },
        }
        k = k + 1;
    }
    proof {
        assert(pv + Seq::<Seq<char>>::empty() == pv);
    }
    let out = splice_env_value(value, &vals);
    Ok(out)
}

/// The application's variables resolved in order, each against the ones
/// resolved before it; the first that fails gives the error.
pub open spec fn resolve_all(sorted: Seq<(String, String)>, app: App, services: Seq<ServiceEnv>, max: nat) -> Result<Seq<(Seq<char>, Seq<char>)>, EnvErr>
    decreases sorted.len(),
{
    if sorted.len() == 0 {
        Ok(Seq::empty())
    } else {
        match resolve_all(sorted.drop_last(), app, services, max) {
            Err(e) => Err(e),
            Ok(prev) => match app_value(sorted.last().1@, prev, app, services, max) {
                Err(e) => Err(e),
                Ok(v) => Ok(prev.push((sorted.last().0@, v))),
            },
        }
    }
}

/// The `DATABASE_URL` of the first running service from `i` on that exports
/// one (only Redis services, when `redis_only`).
pub open spec fn first_db_url(services: Seq<ServiceEnv>, redis_only: bool, i: int) -> Option<Seq<char>>
    decreases services.len() - i,
{
    if i < 0 || i >= services.len() {
        None
    } else if services[i].running && (!redis_only || services[i].kind == ServiceKind::Redis)
        && env_lookup(services[i].env@, "DATABASE_URL"@) is Some {
        env_lookup(services[i].env@, "DATABASE_URL"@)
    } else {
        first_db_url(services, redis_only, i + 1)
    }
}

/// The variables after the service fallbacks: an application without its
/// own `DATABASE_URL` gets the first running service's, and one without a
/// `REDIS_URL` gets the first running Redis service's.
pub open spec fn with_fallbacks(resolved: Seq<(Seq<char>, Seq<char>)>, services: Seq<ServiceEnv>, k: Seq<char>) -> Option<Seq<char>> {
    if k == "DATABASE_URL"@ && pairs_lookup(resolved, k) is None {
        first_db_url(services, false, 0)
    } else if k == "REDIS_URL"@ && pairs_lookup(resolved, k) is None {
        first_db_url(services, true, 0)
    } else {
        pairs_lookup(resolved, k)
    }
}

/// Applies the fallbacks of the running services, in order: a service's
/// `DATABASE_URL` becomes the application's when it has none, and a Redis
/// service's also its `REDIS_URL` when it has none.
pub fn apply_service_url_fallbacks(resolved: &mut Vec<(String, String)>, services: &Vec<ServiceEnv>)
    ensures
        forall|k: Seq<char>| #[trigger] env_lookup(final(resolved)@, k) == with_fallbacks(pairs_of(old(resolved)@), services@, k),
{
    proof {
        reveal_strlit("DATABASE_URL");
        reveal_strlit("REDIS_URL");
    }
    let ghost base = pairs_of(resolved@);
    let mut i: usize = 0;
    proof {
        assert forall|k: Seq<char>| #[trigger] env_lookup(resolved@, k) == pairs_lookup(base, k) by {
            lemma_lookup_pairs(resolved@, k);
        }
    }
    while i < services.len()
        invariant
            i <= services@.len(),
            base == pairs_of(old(resolved)@),
            forall|k: Seq<char>| #[trigger] env_lookup(resolved@, k) == if k == "DATABASE_URL"@ && pairs_lookup(base, k) is None {
                first_db_url(services@.take(i as int), false, 0)
            } else if k == "REDIS_URL"@ && pairs_lookup(base, k) is None {
                first_db_url(services@.take(i as int), true, 0)
            } else {
                pairs_lookup(base, k)
            },
        decreases services@.len() - i,
    {
        let svc = &services[i];
        proof {
            lemma_first_db_url_step(services@, i as int, false);
            lemma_first_db_url_step(services@, i as int, true);
        }
        if svc.running {
            match env_get(&svc.env, "DATABASE_URL") {
                Some(db_url) => {
                    if env_get(resolved, "DATABASE_URL").is_none() {
                        env_set(resolved, "DATABASE_URL", db_url.clone());
                    }
                    if svc.kind == ServiceKind::Redis && env_get(resolved, "REDIS_URL").is_none() {
                        env_set(resolved, "REDIS_URL", db_url);
                    }
                },
                None => {},
            }
        }
        i = i + 1;
    }
    proof {
        assert(services@.take(services@.len() as int) == services@);
    }
}

proof fn lemma_first_db_url_step(services: Seq<ServiceEnv>, i: int, redis_only: bool)
    requires
        0 <= i < services.len(),
    ensures
        first_db_url(services.take(i + 1), redis_only, 0) == match first_db_url(services.take(i), redis_only, 0) {
            Some(u) => Some(u),
            None => if services[i].running && (!redis_only || services[i].kind == ServiceKind::Redis) {
                env_lookup(services[i].env@, "DATABASE_URL"@)
            } else {
                None
            },
        },
{
    lemma_first_db_url_prefix(services.take(i + 1), redis_only, 0, i);
    assert(services.take(i + 1).take(i) == services.take(i));
}

proof fn lemma_first_db_url_prefix(s: Seq<ServiceEnv>, redis_only: bool, j: int, i: int)
    requires
        0 <= j <= i,
        i == s.len() - 1,
    ensures
        first_db_url(s, redis_only, j) == match first_db_url(s.take(i), redis_only, j) {
            Some(u) => Some(u),
            None => if s[i].running && (!redis_only || s[i].kind == ServiceKind::Redis) {
                env_lookup(s[i].env@, "DATABASE_URL"@)
            } else {
                None
            },
        },
    decreases i - j,
{
    if j < i {
        assert(s.take(i)[j] == s[j]);
        lemma_first_db_url_prefix(s, redis_only, j + 1, i);
    } else {
        assert(first_db_url(s, redis_only, i + 1) == None::<Seq<char>>);
        assert(first_db_url(s.take(i), redis_only, i) == None::<Seq<char>>);
    }
}

/// `sorted` lists the variables of `raw` in an order in which each comes
/// after the variables it references.
pub open spec fn is_dependency_order(raw: Seq<(String, String)>, sorted: Seq<(String, String)>) -> bool {
    exists|order: Seq<usize>|
        valid_order(env_graph(raw), order) && sorted.len() == order.len() && forall|i: int|
            0 <= i < order.len() ==> (#[trigger] sorted[i]).0@ == raw[order[i] as int].0@
                && sorted[i].1@ == raw[order[i] as int].1@
}

/// The variables `vars` are the resolved ones with the fallbacks applied.
pub open spec fn env_resolved_as(resolved: Result<Seq<(Seq<char>, Seq<char>)>, EnvErr>, vars: Seq<(String, String)>, services: Seq<ServiceEnv>) -> bool {
    match resolved {
        Ok(m) => forall|k: Seq<char>| #[trigger] env_lookup(vars, k) == with_fallbacks(m, services, k),
        Err(_) => false,
    }
}

/// Why an application's environment could not be resolved.
#[derive(Clone, Debug, PartialEq, Eq)]
pub enum AppEnvError {
    /// The variables reference each other in a cycle; the ones that cannot
    /// be ordered.
    CircularDependency(Vec<String>),
    /// A reference could not be resolved.
    Resolve(EnvResolveError),
}

/// Resolves the variables in the order given, each against the ones before.
pub fn resolve_sorted_vars(sorted: &Vec<(String, String)>, app: &App, services: &Vec<ServiceEnv>, max: usize) -> (r: Result<Vec<(String, String)>, EnvResolveError>)
    ensures
        match r {
            Ok(vars) => resolve_all(sorted@, *app, services@, max as nat) == Ok::<Seq<(Seq<char>, Seq<char>)>, EnvErr>(pairs_of(vars@)),
            Err(e) => resolve_all(sorted@, *app, services@, max as nat) == Err::<Seq<(Seq<char>, Seq<char>)>, EnvErr>(err_view(e)),
        },
{
    let mut resolved: Vec<(String, String)> = Vec::new();
    let mut i: usize = 0;
    proof {
        assert(sorted@.take(0) == Seq::<(String, String)>::empty());
        assert(pairs_of(resolved@) =~= Seq::<(Seq<char>, Seq<char>)>::empty());
    }
    while i < sorted.len()
        invariant
            i <= sorted@.len(),
            resolve_all(sorted@.take(i as int), *app, services@, max as nat) == Ok::<Seq<(Seq<char>, Seq<char>)>, EnvErr>(pairs_of(resolved@)),
        decreases sorted@.len() - i,
    {
        proof {
            assert(sorted@.take(i + 1).drop_last() == sorted@.take(i as int));
            assert(sorted@.take(i + 1).last() == sorted@[i as int]);
        }
        match resolve_app_value(sorted[i].1.as_str(), &resolved, app, services, max) {
            Err(e) => {
                proof {
                    lemma_resolve_all_err(sorted@, i as int, *app, services@, max as nat);
                }
                return Err(e);
            },
            Ok(v) => {
                let ghost before = resolved@;
                resolved.push((sorted[i].0.clone(), v));
                proof {
                    assert(pairs_of(resolved@) == pairs_of(before).push((sorted@[i as int].0@, v@)));
                }
            },
        }
        i = i + 1;
    }
    proof {
        assert(sorted@.take(sorted@.len() as int) == sorted@);
    }
    Ok(resolved)
}

proof fn lemma_resolve_all_err(sorted: Seq<(String, String)>, i: int, app: App, services: Seq<ServiceEnv>, max: nat)
    requires
        0 <= i < sorted.len(),
        resolve_all(sorted.take(i + 1), app, services, max) is Err,
    ensures
        resolve_all(sorted, app, services, max) == resolve_all(sorted.take(i + 1), app, services, max),
    decreases sorted.len() - i,
{
    if i + 1 < sorted.len() {
        assert(sorted.drop_last().take(i + 1) == sorted.take(i + 1));
        lemma_resolve_all_err(sorted.drop_last(), i, app, services, max);
    } else {
        assert(sorted.take(i + 1) == sorted);
    }
}

/// Resolves an application's environment: orders the variables so each
/// comes after the ones it references (failing on a cycle), resolves them in
/// that order, then applies the services' `DATABASE_URL` and `REDIS_URL`
/// fallbacks. Service values are resolved at most `max` levels deep.
pub fn resolve_app_env(raw_vars: &Vec<(String, String)>, app: &App, services: &Vec<ServiceEnv>, max: usize) -> (r: Result<Vec<(String, String)>, AppEnvError>)
    requires
        keys_distinct(raw_vars@),
    ensures
        match r {
            Ok(vars) => exists|sorted: Seq<(String, String)>| #[trigger] is_dependency_order(raw_vars@, sorted)
                && env_resolved_as(resolve_all(sorted, *app, services@, max as nat), vars@, services@),
            Err(AppEnvError::Resolve(e)) => exists|sorted: Seq<(String, String)>| #[trigger] is_dependency_order(raw_vars@, sorted)
                && resolve_all(sorted, *app, services@, max as nat) == Err::<Seq<(Seq<char>, Seq<char>)>, EnvErr>(err_view(e)),
            Err(AppEnvError::CircularDependency(keys)) => !orderable(env_graph(raw_vars@)) && keys@.len() > 0,
        },
{
    let sorted = match topo_sort_env(raw_vars.as_slice()) {
        Ok(s) => s,
        Err(EnvError::CircularDependency(keys)) => {
            return Err(AppEnvError::CircularDependency(keys));
        },
    };
    proof {
        assert(is_dependency_order(raw_vars@, sorted@));
    }
    match resolve_sorted_vars(&sorted, app, services, max) {
        Err(e) => Err(AppEnvError::Resolve(e)),
        Ok(mut resolved) => {
            let ghost m = pairs_of(resolved@);
            apply_service_url_fallbacks(&mut resolved, services);
            Ok(resolved)
        },
    }
}

} // verus!
