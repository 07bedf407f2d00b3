use slasha_server::docker::deployment::js_workspace::{
    glob_matches, is_workspace_member, lockfile_manager, package_json_workspace_globs, package_selector,
    pnpm_workspace_globs, workspace_build, workspace_root, JsonValue, PackageFacts, PackageManager, WorkspaceError,
};

#[test]
fn manager_commands() {
    assert_eq!(PackageManager::Pnpm.label(), "pnpm");
    assert_eq!(PackageManager::Pnpm.build_command("web", true), "pnpm --filter \"web...\" run build");
    assert_eq!(PackageManager::Npm.build_command("web", false), "npm run build --workspace \"web\" --if-present");
    assert_eq!(PackageManager::Bun.build_command("web", true), "bun run --if-present --filter \"web\" build");
    assert_eq!(PackageManager::Yarn.build_command("web", true), "yarn workspace \"web\" run build");
    assert_eq!(PackageManager::Yarn.build_command("web", false), "echo \"no build script for web\"");
    assert_eq!(PackageManager::Npm.start_command("web"), "npm start --workspace \"web\"");
    assert_eq!(PackageManager::Yarn.start_command("web"), "yarn workspace \"web\" start");
}

#[test]
fn pnpm_globs() {
    let yaml = "packages:\n  - 'apps/*'\n  - \"packages/**\"\n  # comment\n  - '!packages/legacy'\ncatalog:\n  - not-a-glob\n";
    assert_eq!(
        pnpm_workspace_globs(yaml),
        vec!["apps/*".to_string(), "packages/**".to_string(), "!packages/legacy".to_string()]
    );
    assert_eq!(pnpm_workspace_globs(""), Vec::<String>::new());
}

#[test]
fn glob_matching() {
    assert!(glob_matches("apps/*", "apps/web"));
    assert!(!glob_matches("apps/*", "apps/web/nested"));
    assert!(glob_matches("packages/**", "packages/a/b"));
    assert!(glob_matches("packages/**", "packages"));
    assert!(glob_matches("./apps/*/", "apps/web"));
    assert!(glob_matches("apps/web-*", "apps/web-admin"));
    assert!(!glob_matches("apps/web-*", "apps/api"));
    assert!(glob_matches("a*b*c", "abc"));
    assert!(glob_matches("a*b*c", "axxbyyc"));
    assert!(!glob_matches("a*b*c", "ac"));
    assert!(glob_matches("**/web", "x/y/web"));
}

#[test]
fn membership_with_negation() {
    let globs = vec!["packages/*".to_string(), "!packages/legacy".to_string()];
    assert!(is_workspace_member(&globs, "packages/ui"));
    assert!(!is_workspace_member(&globs, "packages/legacy"));
    assert!(!is_workspace_member(&globs, "apps/web"));
    assert!(!is_workspace_member(&vec![], "apps/web"));
}

#[test]
fn lockfiles_and_selector() {
    assert_eq!(lockfile_manager(&vec!["yarn.lock".to_string(), "pnpm-lock.yaml".to_string()]), Some(PackageManager::Pnpm));
    assert_eq!(lockfile_manager(&vec!["bun.lockb".to_string()]), Some(PackageManager::Bun));
    assert_eq!(lockfile_manager(&vec!["npm-shrinkwrap.json".to_string()]), Some(PackageManager::Npm));
    assert_eq!(lockfile_manager(&vec!["package.json".to_string()]), None);
    assert_eq!(package_selector(Some("@acme/web".to_string()), "apps/web"), "@acme/web");
    assert_eq!(package_selector(Some("  ".to_string()), "apps/web"), "./apps/web");
    assert_eq!(package_selector(None, "apps/web"), "./apps/web");
}

#[test]
fn package_json_globs_from_array_or_object() {
    let arr = JsonValue::Array(vec![
        JsonValue::String("apps/*".to_string()),
        JsonValue::Number("3".to_string()),
        JsonValue::String("packages/**".to_string()),
    ]);
    assert_eq!(package_json_workspace_globs(&arr), vec!["apps/*", "packages/**"]);
    let obj = JsonValue::Object(vec![
        ("nohoist".to_string(), JsonValue::Null),
        ("packages".to_string(), JsonValue::Array(vec![JsonValue::String("libs/*".to_string())])),
    ]);
    assert_eq!(package_json_workspace_globs(&obj), vec!["libs/*"]);
    assert!(package_json_workspace_globs(&JsonValue::Bool(true)).is_empty());
    let bad = JsonValue::Object(vec![("packages".to_string(), JsonValue::String("x".to_string()))]);
    assert!(package_json_workspace_globs(&bad).is_empty());
}

#[test]
fn workspace_root_is_the_nearest_lockfile() {
    let dirs = vec![
        ("/ctx".to_string(), vec!["yarn.lock".to_string()]),
        ("/ctx/apps".to_string(), vec!["pnpm-lock.yaml".to_string(), "README.md".to_string()]),
        ("/ctx/apps/web".to_string(), vec![]),
    ];
    assert_eq!(workspace_root(&dirs), Some(("/ctx/apps".to_string(), PackageManager::Pnpm)));
    assert_eq!(workspace_root(&vec![("/ctx".to_string(), vec![])]), None);
}

#[test]
fn workspace_packages_build_from_the_root() {
    let facts = PackageFacts {
        has_manifest: true,
        has_own_lockfile: false,
        root: Some(("/ctx".to_string(), PackageManager::Pnpm)),
        globs: Some(vec!["apps/*".to_string()]),
        relative: "apps/web".to_string(),
        name: Some("@acme/web".to_string()),
        has_start_script: true,
        has_build_script: true,
    };
    let w = workspace_build(&facts, "apps/web").unwrap().unwrap();
    assert_eq!(w.root, "/ctx");
    assert_eq!(w.build_command, "pnpm --filter \"@acme/web...\" run build");
    assert_eq!(w.start_command, "pnpm --filter \"@acme/web\" start");
    let outside = PackageFacts { relative: "tools/x".to_string(), ..facts.clone() };
    assert_eq!(workspace_build(&outside, "tools/x"), Ok(None));
    let no_start = PackageFacts { has_start_script: false, ..facts.clone() };
    assert_eq!(workspace_build(&no_start, "apps/web"), Err(WorkspaceError::StartScriptMissing("apps/web".to_string())));
    let own_lock = PackageFacts { has_own_lockfile: true, ..facts.clone() };
    assert_eq!(workspace_build(&own_lock, "apps/web"), Ok(None));
    let unnamed = PackageFacts { name: None, globs: Some(vec![]), ..facts };
    assert_eq!(workspace_build(&unnamed, "apps/web").unwrap().unwrap().start_command, "pnpm --filter \"./apps/web\" start");
}
