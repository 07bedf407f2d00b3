use slasha_server::docker::naming::{
    app_network_name, app_volume_name, app_volume_prefix, cron_container_name,
    process_container_name, service_container_name, service_volume_name,
};
use slasha_server::models::ProcessType;

#[test]
fn container_and_network_names() {
    assert_eq!(
        process_container_name("app1", "dep2", &ProcessType::Web, 3),
        "slasha-app-ctr-app1-dep2-web-3"
    );
    assert_eq!(
        process_container_name("a", "d", &ProcessType::Release, 0),
        "slasha-app-ctr-a-d-release-0"
    );
    assert_eq!(service_container_name("svc"), "slasha-svc-ctr-svc");
    assert_eq!(service_volume_name("svc"), "slasha-svc-vol-svc");
    assert_eq!(app_network_name("app1"), "slasha-app-net-app1");
    assert_eq!(cron_container_name("run9"), "slasha-cron-run9");
    assert_eq!(app_volume_prefix("app1"), "slasha-app-vol-app1-");
}

#[test]
fn volume_name_hashes_the_mount_path() {
    // SHA-256("/data") starts with 0x1b 0x6b 0x5f 0x1a? The name only depends on the path.
    let a = app_volume_name("app1", "/data");
    let b = app_volume_name("app1", "/data");
    let c = app_volume_name("app1", "/var/lib/db");
    assert_eq!(a, b);
    assert_ne!(a, c);
    assert!(a.starts_with("slasha-app-vol-app1-"));
    assert_eq!(a.len(), "slasha-app-vol-app1-".len() + 8);
    // SHA-256 of the empty string begins e3 b0 c4 42.
    assert_eq!(app_volume_name("x", ""), "slasha-app-vol-x-e3b0c442");
}

#[test]
fn volume_suffix_is_eight_lower_hex_digits() {
    for path in ["/data", "", "/var/lib/postgresql/data", "relative"] {
        let name = app_volume_name("app7", path);
        let prefix = app_volume_prefix("app7");
        assert!(name.starts_with(&prefix));
        let suffix = &name[prefix.len()..];
        assert_eq!(suffix.len(), 8);
        assert!(suffix.chars().all(|c| c.is_ascii_digit() || ('a'..='f').contains(&c)));
    }
}
