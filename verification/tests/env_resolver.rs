use std::cell::{Cell, RefCell};
use slasha_server::docker::env_resolver::{
    collect_env_dependencies, contains_env_ref, env_tokens, parse_single_ref, resolve_env_value, splice_env_value,
    topo_sort_env, EnvError, RefSource,
};

fn vars(pairs: &[(&str, &str)]) -> Vec<(String, String)> {
    pairs.iter().map(|(k, v)| (k.to_string(), v.to_string())).collect()
}

#[test]
fn finds_references() {
    assert!(contains_env_ref("x${{ A }}y"));
    assert!(!contains_env_ref("x${ A }y"));
    assert!(!contains_env_ref("${{ A }"));
    assert_eq!(
        collect_env_dependencies("${{A}}-${{ db.URL }}-${{ SLASHA.app_name }}-${{B }}"),
        vec!["A".to_string(), "B".to_string()]
    );
}

#[test]
fn token_sources() {
    let chars = |s: &str| s.chars().collect::<Vec<char>>();
    let t = parse_single_ref(&chars("SLASHA.app_name"));
    assert_eq!((t.source, t.key), (RefSource::System, "app_name".to_string()));
    let t = parse_single_ref(&chars(" db . URL "));
    assert_eq!((t.source, t.key), (RefSource::Service("db".to_string()), "URL".to_string()));
    let t = parse_single_ref(&chars(" KEY "));
    assert_eq!((t.source, t.key), (RefSource::Own, "KEY".to_string()));
    assert_eq!(env_tokens("${{ a.b.c }}").len(), 1);
}

#[test]
fn resolves_in_order() {
    let v = vars(&[("URL", "http://${{HOST}}:${{PORT}}"), ("HOST", "localhost"), ("PORT", "${{BASE}}0"), ("BASE", "808")]);
    let sorted = topo_sort_env(&v).unwrap();
    let keys: Vec<&str> = sorted.iter().map(|(k, _)| k.as_str()).collect();
    let pos = |k: &str| keys.iter().position(|x| *x == k).unwrap();
    assert_eq!(keys.len(), 4);
    assert!(pos("BASE") < pos("PORT"));
    assert!(pos("PORT") < pos("URL"));
    assert!(pos("HOST") < pos("URL"));
}

#[test]
fn reports_cycles_in_input_order() {
    let v = vars(&[("A", "${{B}}"), ("C", "plain"), ("B", "${{A}}"), ("D", "${{A}}")]);
    assert_eq!(
        topo_sort_env(&v),
        Err(EnvError::CircularDependency(vec!["A".to_string(), "B".to_string(), "D".to_string()]))
    );
    let self_ref = vars(&[("X", "${{ X }}")]);
    assert!(topo_sort_env(&self_ref).is_err());
}

#[test]
fn unknown_references_are_not_dependencies() {
    let v = vars(&[("A", "${{MISSING}}")]);
    assert_eq!(topo_sort_env(&v).unwrap().len(), 1);
}

#[test]
fn splices_resolved_values() {
    assert_eq!(
        splice_env_value("a${{X}}b${{ y.z }}c", &vec!["1".to_string(), "2".to_string()]),
        "a1b2c"
    );
    assert_eq!(splice_env_value("plain", &vec![]), "plain");
}

#[test]
fn resolver_is_asked_left_to_right() {
    let asked: RefCell<Vec<(RefSource, String)>> = RefCell::new(vec![]);
    let out: Result<String, String> = resolve_env_value("a${{ X }}b${{ db . URL }}c${{SLASHA.app_name}}", |s, k| {
        asked.borrow_mut().push((s.clone(), k.to_string()));
        Ok(format!("<{}>", k))
    });
    assert_eq!(out, Ok("a<X>b<URL>c<app_name>".to_string()));
    assert_eq!(
        asked.into_inner(),
        vec![
            (RefSource::Own, "X".to_string()),
            (RefSource::Service("db".to_string()), "URL".to_string()),
            (RefSource::System, "app_name".to_string()),
        ]
    );
}

#[test]
fn first_failed_lookup_ends_resolution() {
    let calls = Cell::new(0);
    let out: Result<String, String> = resolve_env_value("${{A}}${{B}}${{C}}", |_, k| {
        calls.set(calls.get() + 1);
        if k == "B" { Err(format!("missing {}", k)) } else { Ok(k.to_string()) }
    });
    assert_eq!(out, Err("missing B".to_string()));
    assert_eq!(calls.get(), 2);
    let plain: Result<String, String> = resolve_env_value("no refs", |_, _| Err("never".to_string()));
    assert_eq!(plain, Ok("no refs".to_string()));
}
