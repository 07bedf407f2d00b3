use slasha_server::docker::deployment::litestream::{
    config_yaml, parse_last_modified, plan, probe_env, read_probe_output, replica_path,
    shell_single_quote,
};
use slasha_server::models::{AppBackup, Timestamp};

fn backup(prefix: Option<&str>) -> AppBackup {
    AppBackup {
        id: "b1".to_string(),
        enabled: true,
        db_path: "/data/app.db".to_string(),
        bucket: "bkt".to_string(),
        endpoint: "https://s3.example".to_string(),
        path_prefix: prefix.map(|p| p.to_string()),
        access_key_id: "AK".to_string(),
        secret_access_key: "SK".to_string(),
        restore_pending: false,
    }
}

#[test]
fn quoting() {
    assert_eq!(shell_single_quote("abc"), "'abc'");
    assert_eq!(shell_single_quote("it's"), "'it'\\''s'");
    assert_eq!(shell_single_quote(""), "''");
}

#[test]
fn replica_path_and_yaml() {
    assert_eq!(replica_path(&backup(None)), "litestream");
    assert_eq!(replica_path(&backup(Some(""))), "litestream");
    assert_eq!(replica_path(&backup(Some("apps/x"))), "apps/x");
    assert_eq!(
        config_yaml(&backup(None)),
        "dbs:\n  - path: /data/app.db\n    replicas:\n      - type: s3\n        bucket: bkt\n        path: litestream\n        endpoint: https://s3.example\n        region: auto\n        force-path-style: true\n"
    );
}

#[test]
fn plan_wraps_command() {
    let p = plan(&backup(None), "node server.js", false);
    assert!(p.command.starts_with("set -e\nmkdir -p \"$(dirname '/data/app.db')\"\ncat > /etc/litestream.yml <<'SLASHA_LITESTREAM_EOF'\ndbs:"));
    assert!(p.command.contains("if [ ! -f '/data/app.db' ]; then\n"));
    assert!(p.command.ends_with("\nexec /slasha/litestream replicate -config /etc/litestream.yml -exec 'node server.js'"));
    assert_eq!(p.env, vec![
        ("LITESTREAM_ACCESS_KEY_ID".to_string(), "AK".to_string()),
        ("LITESTREAM_SECRET_ACCESS_KEY".to_string(), "SK".to_string()),
    ]);
    let r = plan(&backup(None), "x", true);
    assert!(r.command.contains("TMP='/data/app.db'.slasha-restore\n"));
    assert!(!p.command.contains("SK"));
    assert_eq!(probe_env(&backup(None)), vec!["LITESTREAM_ACCESS_KEY_ID=AK".to_string(), "LITESTREAM_SECRET_ACCESS_KEY=SK".to_string()]);
}

#[test]
fn last_modified_is_latest() {
    let out = "{\"key\":\"a\",\"lastModified\":\"2024-01-02T03:04:05Z\"}\n{\"lastModified\":\"2024-01-03T00:00:00+01:00\"}\n{\"lastModified\":\"garbage\"}\n";
    // 2024-01-02T23:00:00Z
    assert_eq!(parse_last_modified(out), Some(Timestamp { secs: 1704236400, nanos: 0 }));
    assert_eq!(parse_last_modified("no times"), None);
}

#[test]
fn probe_output() {
    let ok = read_probe_output("SLASHA_REACHABLE\n{\"lastModified\":\"2024-01-02T03:04:05Z\"}\n");
    assert!(ok.reachable);
    assert_eq!(ok.error, None);
    assert_eq!(ok.last_synced_at, Some(Timestamp { secs: 1704164645, nanos: 0 }));
    let bad = read_probe_output("  mc: access denied \n");
    assert!(!bad.reachable);
    assert_eq!(bad.error, Some("mc: access denied".to_string()));
    let long = "x".repeat(400);
    assert_eq!(read_probe_output(&long).error.map(|e| e.len()), Some(300));
    assert_eq!(read_probe_output("   ").error, None);
}
