use slasha_server::docker::app::deploy::commands::{apply_start_command, resolve_build_commands};
use slasha_server::docker::app::deploy::context::{resolve_container_port, resolve_volume_paths};
use slasha_server::docker::app::image::{base_image_name, image_tag, images_to_prune};
use slasha_server::docker::app::volume::{app_volumes, VolumeListing};
use slasha_server::docker::deployment::dockerfile_parser::BuildStrategy;
use slasha_server::docker::deployment::procfile_parser::parse_procfile_content;
use slasha_server::docker::labels::{cron_container_labels, process_container_labels, service_container_labels};
use slasha_server::models::{App, Deployment, DeploymentStatus, ProcessType};

fn env(pairs: &[(&str, &str)]) -> Vec<(String, String)> {
    pairs.iter().map(|(k, v)| (k.to_string(), v.to_string())).collect()
}

fn app() -> App {
    App { id: "a1".to_string(), name: "Shop".to_string(), slug: "shop".to_string(), root_dir: String::new() }
}

#[test]
fn command_overrides() {
    let c = resolve_build_commands(&env(&[("SLASHA_BUILD_CMD", " make "), ("SLASHA_START_CMD", "   ")]));
    assert_eq!(c.build, Some("make".to_string()));
    assert_eq!(c.start, None);
    let pf = parse_procfile_content("web: old\nworker: w\n");
    let applied = apply_start_command(Some(pf), Some("new")).unwrap();
    assert_eq!(applied.get(&ProcessType::Web), Some("new"));
    assert_eq!(applied.get(&ProcessType::Worker), Some("w"));
    assert!(apply_start_command(None, None).is_none());
    assert_eq!(apply_start_command(None, Some("s")).unwrap().get(&ProcessType::Web), Some("s"));
}

#[test]
fn container_port_rules() {
    let df = BuildStrategy::Dockerfile { content: "EXPOSE 3000\n".to_string() };
    let mut e = env(&[]);
    assert_eq!(resolve_container_port(&df, &mut e), Ok(3000));
    assert_eq!(e, env(&[("PORT", "3000")]));
    let mut e = env(&[("PORT", "5000")]);
    assert_eq!(resolve_container_port(&df, &mut e), Ok(5000));
    let mut e = env(&[]);
    assert_eq!(resolve_container_port(&BuildStrategy::Railpack, &mut e), Ok(8080));
    assert_eq!(e, env(&[("PORT", "8080")]));
    let mut e = env(&[("PORT", "abc")]);
    assert_eq!(resolve_container_port(&df, &mut e), Err("invalid digit found in string".to_string()));
    let mut e = env(&[("PORT", "99999")]);
    assert_eq!(resolve_container_port(&df, &mut e), Err("number too large to fit in target type".to_string()));
    let mut e = env(&[("PORT", "")]);
    assert_eq!(resolve_container_port(&df, &mut e), Err("cannot parse integer from empty string".to_string()));
    assert_eq!(resolve_volume_paths(&BuildStrategy::Railpack), Vec::<String>::new());
}

#[test]
fn image_names_and_pruning() {
    assert_eq!(base_image_name("shop"), "slasha/shop");
    assert_eq!(image_tag("shop", "d1"), "slasha/shop:d1");
    let mut deployments = Vec::new();
    for i in 0..12 {
        let status = if i == 1 { DeploymentStatus::Failed } else { DeploymentStatus::Stopped };
        deployments.push(Deployment { id: format!("d{}", i), commit_sha: String::new(), status });
    }
    let tags: Vec<String> = (0..12).map(|i| format!("slasha/shop:d{}", i)).collect();
    let pruned = images_to_prune("shop", &deployments, &tags);
    assert_eq!(pruned, vec!["slasha/shop:d1".to_string(), "slasha/shop:d11".to_string()]);
}

#[test]
fn volumes_listing() {
    let vols = vec![
        VolumeListing { name: "slasha-app-vol-a1-1234".to_string(), path_label: Some("/data".to_string()) },
        VolumeListing { name: "other".to_string(), path_label: None },
        VolumeListing { name: "slasha-app-vol-a1-ff".to_string(), path_label: None },
    ];
    let sizes = vec![("slasha-app-vol-a1-1234".to_string(), 42), ("slasha-app-vol-a1-ff".to_string(), -1)];
    let r = app_volumes("a1", &vols, &sizes);
    assert_eq!(r.len(), 2);
    assert_eq!((r[0].path.as_str(), r[0].is_managed, r[0].size_bytes), ("/data", true, Some(42)));
    assert_eq!((r[1].path.as_str(), r[1].is_managed, r[1].size_bytes), ("slasha-app-vol-a1-ff", false, None));
}

#[test]
fn labels() {
    let d = Deployment { id: "d1".to_string(), commit_sha: String::new(), status: DeploymentStatus::Running };
    let l = process_container_labels(&app(), &d, &ProcessType::Web, &2, Some(8080));
    assert_eq!(l, env(&[
        ("slasha.managed", "true"),
        ("slasha.app_id", "a1"),
        ("slasha.deployment_id", "d1"),
        ("slasha.app_slug", "shop"),
        ("slasha.container_port", "8080"),
        ("slasha.process_type", "web"),
        ("slasha.instance_index", "2"),
    ]));
    assert_eq!(service_container_labels(&app(), "s1").len(), 3);
    assert_eq!(cron_container_labels(&app(), "j", "r")[5], ("slasha.process_type".to_string(), "cron".to_string()));
}
