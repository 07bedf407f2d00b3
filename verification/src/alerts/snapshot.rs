//! What the alert worker must read before evaluating the enabled rules:
//! the applications whose metrics or health checks rules watch, the
//! domains and the cron jobs.
use crate::text::{chars_eq, chars_of, views};
use vstd::prelude::*;

verus! {

/// What a rule watches, as far as reading its inputs goes.
#[derive(Clone, Debug)]
pub enum RuleSubject {
    /// A server-wide metric.
    Server,
    /// An application's CPU or memory use.
    AppMetric { app_id: String },
    /// An application's health-check URL.
    AppHealthCheck { app_id: String, url: String },
    /// A domain's certificate or DNS.
    Domain { domain: String },
    /// A cron job's latest run.
    CronJob { cron_job_id: String },
}

/// The distinct names (each once) that a list holds.
pub open spec fn distinct(s: Seq<Seq<char>>) -> bool {
    forall|i: int, j: int| 0 <= i < j < s.len() ==> s[i] != s[j]
}

/// The application whose metrics a rule reads, if any.
pub open spec fn metric_app_of(r: RuleSubject) -> Option<Seq<char>> {
    match r {
        RuleSubject::AppMetric { app_id } => Some(app_id@),
        _ => None,
    }
}

/// The domain a rule checks, if any.
pub open spec fn domain_of(r: RuleSubject) -> Option<Seq<char>> {
    match r {
        RuleSubject::Domain { domain } => Some(domain@),
        _ => None,
    }
}

/// The cron job a rule watches, if any.
pub open spec fn cron_job_of(r: RuleSubject) -> Option<Seq<char>> {
    match r {
        RuleSubject::CronJob { cron_job_id } => Some(cron_job_id@),
        _ => None,
    }
}

/// The names `f` picks out of the rules.
pub open spec fn selected(rules: Seq<RuleSubject>, f: spec_fn(RuleSubject) -> Option<Seq<char>>) -> Set<Seq<char>> {
    Set::new(|a: Seq<char>| exists|i: int| 0 <= i < rules.len() && #[trigger] f(rules[i]) == Some(a))
}

/// The applications whose metrics the rules read.
pub open spec fn metric_apps(rules: Seq<RuleSubject>) -> Set<Seq<char>> {
    selected(rules, |r: RuleSubject| metric_app_of(r))
}

/// The domains the rules check.
pub open spec fn domains(rules: Seq<RuleSubject>) -> Set<Seq<char>> {
    selected(rules, |r: RuleSubject| domain_of(r))
}

/// The cron jobs the rules watch.
pub open spec fn cron_jobs(rules: Seq<RuleSubject>) -> Set<Seq<char>> {
    selected(rules, |r: RuleSubject| cron_job_of(r))
}

proof fn lemma_selected_push(pre: Seq<RuleSubject>, r: RuleSubject, f: spec_fn(RuleSubject) -> Option<Seq<char>>)
    ensures
        selected(pre.push(r), f) == match f(r) {
            Some(x) => selected(pre, f).insert(x),
            None => selected(pre, f),
        },
{
    let post = pre.push(r);
    let expected = match f(r) {
        Some(x) => selected(pre, f).insert(x),
        None => selected(pre, f),
    };
    assert forall|a: Seq<char>| selected(post, f).contains(a) <==> expected.contains(a) by {
        if selected(post, f).contains(a) {
            let k = choose|k: int| 0 <= k < post.len() && #[trigger] f(post[k]) == Some(a);
            if k < pre.len() {
                assert(post[k] == pre[k]);
                assert(selected(pre, f).contains(a));
            }
        }
        if selected(pre, f).contains(a) {
            let k = choose|k: int| 0 <= k < pre.len() && #[trigger] f(pre[k]) == Some(a);
            assert(post[k] == pre[k]);
            assert(selected(post, f).contains(a));
        }
        if f(r) == Some(a) {
            assert(post[pre.len() as int] == r);
            assert(selected(post, f).contains(a));
        }
    }
    assert(selected(post, f) =~= expected);
}

/// The URL probed for an application: that of the last health-check rule
/// for it.
pub open spec fn health_url(rules: Seq<RuleSubject>, app: Seq<char>) -> Option<Seq<char>>
    decreases rules.len(),
{
    if rules.len() == 0 {
        None
    } else {
        match rules.last() {
            RuleSubject::AppHealthCheck { app_id, url } => if app_id@ == app {
                Some(url@)
            } else {
                health_url(rules.drop_last(), app)
            },
            _ => health_url(rules.drop_last(), app),
        }
    }
}

/// What the worker reads for one tick.
#[derive(Clone, Debug)]
pub struct SnapshotNeeds {
    pub metric_apps: Vec<String>,
    /// Each application with a health check, once, with the URL to probe.
    pub health_checks: Vec<(String, String)>,
    pub domains: Vec<String>,
    pub cron_jobs: Vec<String>,
}

fn contains_name(v: &Vec<String>, s: &String) -> (b: bool)
    ensures
        b == views(v@).contains(s@),
{
    let t = chars_of(s.as_str());
    let mut i: usize = 0;
    while i < v.len()
        invariant
            i <= v@.len(),
            t@ == s@,
            forall|k: int| 0 <= k < i ==> views(v@)[k] != s@,
        decreases v@.len() - i,
    {
        if chars_eq(chars_of(v[i].as_str()).as_slice(), t.as_slice()) {
            assert(views(v@)[i as int] == s@);
            return true;
        }
        i = i + 1;
    }
    false
}

fn add_name(v: &mut Vec<String>, s: &String)
    requires
        distinct(views(old(v)@)),
    ensures
        distinct(views(final(v)@)),
        views(final(v)@).to_set() == views(old(v)@).to_set().insert(s@),
{
    if !contains_name(v, s) {
        let ghost before = views(v@);
        v.push(s.clone());
        assert(views(v@) =~= before.push(s@));
        assert(before.push(s@).to_set() =~= before.to_set().insert(s@)) by {
            assert forall|x: Seq<char>| before.push(s@).contains(x) <==> before.contains(x) || x == s@ by {
                if before.push(s@).contains(x) {
                    let k = choose|k: int| 0 <= k < before.push(s@).len() && before.push(s@)[k] == x;
                    if k < before.len() {
                        assert(before[k] == x);
                    }
                }
                if x == s@ {
                    assert(before.push(s@)[before.len() as int] == x);
                }
                if before.contains(x) {
                    let k = choose|k: int| 0 <= k < before.len() && before[k] == x;
                    assert(before.push(s@)[k] == x);
                }
            }
        }
    } else {
        assert(views(v@).to_set().insert(s@) =~= views(v@).to_set());
    }
}

fn url_index(v: &Vec<(String, String)>, app: &String) -> (r: Option<usize>)
    ensures
        match r {
            Some(k) => k < v@.len() && v@[k as int].0@ == app@,
            None => forall|k: int| 0 <= k < v@.len() ==> v@[k].0@ != app@,
        },
{
    let t = chars_of(app.as_str());
    let mut i: usize = 0;
    while i < v.len()
        invariant
            i <= v@.len(),
            t@ == app@,
            forall|k: int| 0 <= k < i ==> v@[k].0@ != app@,
        decreases v@.len() - i,
    {
        if chars_eq(chars_of(v[i].0.as_str()).as_slice(), t.as_slice()) {
            return Some(i);
        }
        i = i + 1;
    }
    None
}

/// What to read for the rules: the applications whose metrics are watched,
/// each application with a health check and its URL (the last rule's), and
/// the domains and cron jobs; each name once.
pub fn snapshot_needs(rules: &Vec<RuleSubject>) -> (n: SnapshotNeeds)
    ensures
        distinct(views(n.metric_apps@)),
        views(n.metric_apps@).to_set() == metric_apps(rules@),
        distinct(views(n.domains@)),
        views(n.domains@).to_set() == domains(rules@),
        distinct(views(n.cron_jobs@)),
        views(n.cron_jobs@).to_set() == cron_jobs(rules@),
        forall|i: int, j: int| 0 <= i < j < n.health_checks@.len() ==> n.health_checks@[i].0@ != n.health_checks@[j].0@,
        forall|a: Seq<char>| #[trigger] health_url(rules@, a) is Some <==> exists|i: int| 0 <= i < n.health_checks@.len() && n.health_checks@[i].0@ == a,
        forall|i: int| 0 <= i < n.health_checks@.len() ==> health_url(rules@, #[trigger] n.health_checks@[i].0@) == Some(n.health_checks@[i].1@),
{
    let mut m: Vec<String> = Vec::new();
    let mut d: Vec<String> = Vec::new();
    let mut c: Vec<String> = Vec::new();
    let mut h: Vec<(String, String)> = Vec::new();
    let mut i: usize = 0;
    assert(views(m@).to_set() =~= metric_apps(rules@.take(0)));
    assert(views(d@).to_set() =~= domains(rules@.take(0)));
    assert(views(c@).to_set() =~= cron_jobs(rules@.take(0)));
    while i < rules.len()
        invariant
            i <= rules@.len(),
            distinct(views(m@)),
            distinct(views(d@)),
            distinct(views(c@)),
            views(m@).to_set() == metric_apps(rules@.take(i as int)),
            views(d@).to_set() == domains(rules@.take(i as int)),
            views(c@).to_set() == cron_jobs(rules@.take(i as int)),
            forall|x: int, y: int| 0 <= x < y < h@.len() ==> h@[x].0@ != h@[y].0@,
            forall|a: Seq<char>| #[trigger] health_url(rules@.take(i as int), a) is Some <==> exists|k: int| 0 <= k < h@.len() && h@[k].0@ == a,
            forall|k: int| 0 <= k < h@.len() ==> health_url(rules@.take(i as int), #[trigger] h@[k].0@) == Some(h@[k].1@),
        decreases rules@.len() - i,
    {
        let ghost pre = rules@.take(i as int);
        let ghost post = rules@.take(i + 1);
        proof {
            assert(post.drop_last() =~= pre);
            assert(post.last() == rules@[i as int]);
            assert(post =~= pre.push(rules@[i as int]));
            lemma_selected_push(pre, rules@[i as int], |r: RuleSubject| metric_app_of(r));
            lemma_selected_push(pre, rules@[i as int], |r: RuleSubject| domain_of(r));
            lemma_selected_push(pre, rules@[i as int], |r: RuleSubject| cron_job_of(r));
            assert forall|a: Seq<char>| #[trigger] health_url(post, a) == match rules@[i as int] {
                RuleSubject::AppHealthCheck { app_id, url } => if app_id@ == a {
                    Some(url@)
                } else {
                    health_url(pre, a)
                },
                _ => health_url(pre, a),
            } by {
                assert(post.drop_last() =~= pre);
            }
        }
        match &rules[i] {
            RuleSubject::AppMetric { app_id } => {
                add_name(&mut m, app_id);
            },
            RuleSubject::Domain { domain } => {
                add_name(&mut d, domain);
            },
            RuleSubject::CronJob { cron_job_id } => {
                add_name(&mut c, cron_job_id);
            },
            RuleSubject::AppHealthCheck { app_id, url } => {
                let ghost old_h = h@;
                match url_index(&h, app_id) {
                    Some(k) => {
                        h.set(k, (app_id.clone(), url.clone()));
                        assert forall|x: int| 0 <= x < h@.len() implies #[trigger] h@[x].0@ == old_h[x].0@ by {}
                        assert forall|a: Seq<char>| #[trigger] health_url(post, a) is Some <==> exists|q: int| 0 <= q < h@.len() && h@[q].0@ == a by {
                            if health_url(post, a) is Some {
                                if a == app_id@ {
                                    assert(h@[k as int].0@ == a);
                                } else {
                                    assert(health_url(pre, a) is Some);
                                    let q = choose|q: int| 0 <= q < old_h.len() && old_h[q].0@ == a;
                                    assert(h@[q].0@ == a);
                                }
                            }
                            if exists|q: int| 0 <= q < h@.len() && h@[q].0@ == a {
                                let q = choose|q: int| 0 <= q < h@.len() && h@[q].0@ == a;
                                assert(old_h[q].0@ == a);
                                if a != app_id@ {
                                    assert(health_url(pre, a) is Some);
                                }
                            }
                        }
                        assert forall|x: int| 0 <= x < h@.len() implies health_url(post, #[trigger] h@[x].0@) == Some(h@[x].1@) by {
                            if x != k {
                                assert(old_h[x].0@ != old_h[k as int].0@);
                                assert(health_url(pre, old_h[x].0@) == Some(old_h[x].1@));
                            }
                        }
                    },
                    None => {
                        h.push((app_id.clone(), url.clone()));
                        assert forall|x: int| 0 <= x < old_h.len() implies #[trigger] h@[x] == old_h[x] by {}
                        assert(h@[old_h.len() as int].0@ == app_id@);
                        assert forall|a: Seq<char>| #[trigger] health_url(post, a) is Some <==> exists|q: int| 0 <= q < h@.len() && h@[q].0@ == a by {
                            if health_url(post, a) is Some {
                                if a == app_id@ {
                                    assert(h@[old_h.len() as int].0@ == a);
                                } else {
                                    assert(health_url(pre, a) is Some);
                                    let q = choose|q: int| 0 <= q < old_h.len() && old_h[q].0@ == a;
                                    assert(h@[q].0@ == a);
                                }
                            }
                            if exists|q: int| 0 <= q < h@.len() && h@[q].0@ == a {
                                let q = choose|q: int| 0 <= q < h@.len() && h@[q].0@ == a;
                                if q < old_h.len() {
                                    assert(old_h[q].0@ == a);
                                    if a != app_id@ {
                                        assert(health_url(pre, a) is Some);
                                    }
                                }
                            }
                        }
                        assert forall|x: int| 0 <= x < h@.len() implies health_url(post, #[trigger] h@[x].0@) == Some(h@[x].1@) by {
                            if x < old_h.len() {
                                assert(health_url(pre, old_h[x].0@) == Some(old_h[x].1@));
                            }
                        }
                    },
                }
            },
            RuleSubject::Server => {},
        }
        i = i + 1;
    }
    assert(rules@.take(rules@.len() as int) =~= rules@);
    SnapshotNeeds { metric_apps: m, health_checks: h, domains: d, cron_jobs: c }
}

} // verus!
