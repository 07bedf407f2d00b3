use slasha_server::docker::app::parser::{parse_expose, parse_volumes, repo_file_path};
use slasha_server::docker::deployment::dockerfile_parser::BuildStrategy;

#[test]
fn expose_first_port() {
    assert_eq!(parse_expose("FROM node\nEXPOSE 3000\nEXPOSE 4000\n"), Some(3000));
    assert_eq!(parse_expose("from node\n  expose 8080/tcp\n"), Some(8080));
    assert_eq!(parse_expose("EXPOSE $PORT\nEXPOSE 5000 6000\n"), None);
    assert_eq!(parse_expose("EXPOSE abc\nEXPOSE 70000\nEXPOSE 9000\n"), Some(9000));
    assert_eq!(parse_expose("EXPOSE\n"), None);
    assert_eq!(parse_expose(""), None);
}

#[test]
fn volumes_of_final_stage() {
    let df = "FROM builder\nVOLUME /cache\nFROM runtime\nVOLUME [\"/data\", '/logs']\nvolume /data /tmp\n# VOLUME /ignored\n";
    assert_eq!(parse_volumes(df), vec!["/data".to_string(), "/logs".to_string(), "/tmp".to_string()]);
    assert_eq!(parse_volumes("VOLUME []\n"), Vec::<String>::new());
    assert_eq!(parse_volumes("VOLUME [[\"/a\"]]\n"), vec!["/a".to_string()]);
}

#[test]
fn strategy_names_and_paths() {
    assert_eq!(BuildStrategy::Railpack.name(), "Railpack");
    assert_eq!(BuildStrategy::Dockerfile { content: String::new() }.name(), "Dockerfile");
    assert_eq!(repo_file_path("", "Procfile"), "Procfile");
    assert_eq!(repo_file_path("apps/web", "Procfile"), "apps/web/Procfile");
    assert_eq!(repo_file_path("apps/web/", "Dockerfile"), "apps/web/Dockerfile");
    assert_eq!(repo_file_path("apps", "/abs"), "/abs");
}
