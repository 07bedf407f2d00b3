use slasha_server::docker::app::deploy::runner::{deployment_steps, DeployStep, ProcessTarget};
use slasha_server::docker::deployment::procfile_parser::Procfile;
use slasha_server::env_map::{env_get, env_set};
use slasha_server::models::ProcessType;

fn targets() -> Vec<ProcessTarget> {
    vec![
        ProcessTarget { process_type: ProcessType::Web, command: None, count: 2 },
        ProcessTarget { process_type: ProcessType::Worker, command: Some("work".to_string()), count: 1 },
    ]
}

#[test]
fn set_then_get_reads_the_value_back() {
    let mut env = vec![("A".to_string(), "1".to_string()), ("B".to_string(), "2".to_string())];
    env_set(&mut env, "A", "9".to_string());
    env_set(&mut env, "C", "3".to_string());
    assert_eq!(env_get(&env, "A"), Some("9".to_string()));
    assert_eq!(env_get(&env, "B"), Some("2".to_string()));
    assert_eq!(env_get(&env, "C"), Some("3".to_string()));
    assert_eq!(env_get(&env, "D"), None);
}

#[test]
fn procfile_insert_then_get() {
    let mut pf = Procfile::new();
    pf.insert(ProcessType::Web, "serve".to_string());
    pf.insert(ProcessType::Release, "migrate".to_string());
    pf.insert(ProcessType::Web, "serve --port 80".to_string());
    assert_eq!(pf.get(&ProcessType::Web), Some("serve --port 80"));
    assert_eq!(pf.get(&ProcessType::Release), Some("migrate"));
    assert_eq!(pf.get(&ProcessType::Worker), None);
}

#[test]
fn stateless_deploys_keep_the_previous_release_until_promotion() {
    let steps = deployment_steps("a", "d", &None, &None, false, true, &None, &targets());
    assert_eq!(steps.last(), Some(&DeployStep::Promote));
    assert!(!steps.contains(&DeployStep::StopPrevious));
    let promote_at = steps.iter().position(|s| *s == DeployStep::Promote).unwrap();
    let last_wait = steps.iter().rposition(|s| matches!(s, DeployStep::AwaitReady(_))).unwrap();
    assert!(last_wait < promote_at);
    assert_eq!(steps.iter().filter(|s| matches!(s, DeployStep::AwaitReady(_))).count(), 2);
}

#[test]
fn stateful_deploys_stop_the_previous_release_before_creating() {
    let steps = deployment_steps("a", "d", &None, &None, true, true, &None, &targets());
    let stop_at = steps.iter().position(|s| *s == DeployStep::StopPrevious).unwrap();
    let first_create = steps.iter().position(|s| matches!(s, DeployStep::CreateContainer(_, _))).unwrap();
    assert!(stop_at < first_create);
    assert_eq!(steps.last(), Some(&DeployStep::Promote));
}
