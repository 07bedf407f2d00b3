use hmac::{Hmac, Mac};
use sha2::Sha256;
use slasha_server::connections::github::auth::{create_state, create_state_at, verify_state};
use slasha_server::connections::github::client::{
    access_revoked, build_api_url, check_repository, has_more_pages, installation_token_path,
    installation_url, private_key_pem, repositories_page_path, repository_path, user_installation_path,
    GithubError,
};
use slasha_server::connections::github::webhook::{
    disconnects_installation, event_kind, push_plan, removes_repositories, verify_signature, PushPlan,
    WebhookError, WebhookEvent,
};
use slasha_server::connections::mirror::{branch_ref, normalize_branch};
use slasha_server::connections::{github_connection_ready, selected_branch, sync_kind, AppSource, SyncKind};

fn sign(secret: &[u8], body: &[u8]) -> String {
    let mut mac = <Hmac<Sha256> as Mac>::new_from_slice(secret).unwrap();
    mac.update(body);
    let tag = mac.finalize().into_bytes();
    format!("sha256={}", hex::encode(tag))
}

#[test]
fn signatures_are_checked_against_the_secret() {
    let secret = b"It's a Secret to Everybody";
    let body = b"Hello, World!";
    let good = sign(secret, body);
    assert_eq!(verify_signature(Some(secret), Some(&good), body), Ok(()));
    assert_eq!(verify_signature(Some(secret), Some(&good.to_uppercase().replace("SHA256=", "sha256=")), body), Ok(()));
    assert_eq!(verify_signature(Some(b"other"), Some(&good), body), Err(WebhookError::Unauthorized));
    assert_eq!(verify_signature(Some(secret), Some(&good), b"Hello"), Err(WebhookError::Unauthorized));
    assert_eq!(verify_signature(Some(secret), Some(&good[7..]), body), Err(WebhookError::Unauthorized));
    assert_eq!(verify_signature(Some(secret), Some("sha256=zz"), body), Err(WebhookError::Unauthorized));
    assert_eq!(verify_signature(Some(secret), Some("sha256=abc"), body), Err(WebhookError::Unauthorized));
    assert_eq!(verify_signature(Some(secret), None, body), Err(WebhookError::Unauthorized));
    assert_eq!(
        verify_signature(None, Some(&good), body),
        Err(WebhookError::NotFound("GitHub integration is disabled".to_string()))
    );
}

#[test]
fn events_and_actions() {
    assert_eq!(event_kind(Some("push")), Ok(WebhookEvent::Push));
    assert_eq!(event_kind(Some("installation")), Ok(WebhookEvent::Installation));
    assert_eq!(event_kind(Some("installation_repositories")), Ok(WebhookEvent::InstallationRepositories));
    assert_eq!(event_kind(Some("ping")), Ok(WebhookEvent::Other));
    assert_eq!(event_kind(None), Err(WebhookError::BadRequest("Missing GitHub event header".to_string())));
    assert!(disconnects_installation("deleted"));
    assert!(disconnects_installation("suspend"));
    assert!(!disconnects_installation("created"));
    assert!(removes_repositories("removed"));
    assert!(!removes_repositories("added"));
}

#[test]
fn pushes_deploy_the_default_branch_once() {
    assert_eq!(push_plan("refs/heads/dev", "main", "main", true, None, "abc"), None);
    assert_eq!(
        push_plan("refs/heads/main", "main", "main", true, Some("old"), "abc"),
        Some(PushPlan { update_default_branch: false, deploy: true })
    );
    assert_eq!(
        push_plan("refs/heads/main", "main", "master", true, Some("abc"), "abc"),
        Some(PushPlan { update_default_branch: true, deploy: false })
    );
    assert_eq!(
        push_plan("refs/heads/main", "main", "main", false, None, "abc"),
        Some(PushPlan { update_default_branch: false, deploy: false })
    );
}

#[test]
fn api_paths_and_urls() {
    assert_eq!(build_api_url("/app"), "https://api.github.com/app");
    assert_eq!(installation_token_path(42), "/app/installations/42/access_tokens");
    assert_eq!(user_installation_path(7), "/user/installations/7/repositories?per_page=1");
    assert_eq!(repositories_page_path(100, 2), "/installation/repositories?per_page=100&page=2");
    assert_eq!(repository_path(-3), "/repositories/-3");
    assert_eq!(
        installation_url("https://github.com/apps/slasha", "a b/c~é"),
        "https://github.com/apps/slasha/installations/new?state=a%20b%2Fc~%C3%A9"
    );
    assert!(access_revoked(404));
    assert!(access_revoked(403));
    assert!(!access_revoked(500));
    assert!(has_more_pages(100, 100));
    assert!(!has_more_pages(99, 100));
    assert_eq!(check_repository(5, 5), Ok(()));
    assert_eq!(
        check_repository(5, 6),
        Err(GithubError::Other("GitHub returned an unexpected repository".to_string()))
    );
    assert_eq!(GithubError::AccessRevoked.message(), "GitHub installation or repository is no longer accessible");
    assert_eq!(private_key_pem("-----BEGIN-----\\nabc\\n-----END-----"), "-----BEGIN-----\nabc\n-----END-----");
    assert_eq!(private_key_pem("a\\\\nb\\"), "a\\\nb\\");
}

#[test]
fn state_tokens_round_trip() {
    let token = create_state("user-1", "/apps", "s3cret").unwrap();
    assert_eq!(verify_state(&token, "s3cret"), Ok(("user-1".to_string(), "/apps".to_string())));
    assert!(verify_state(&token, "wrong").is_err());
    let expired = create_state_at("user-1", "/apps", "s3cret", 1000).unwrap();
    assert!(verify_state(&expired, "s3cret").is_err());
}

#[test]
fn branches_are_normalized() {
    assert_eq!(normalize_branch("  refs/heads/main "), Ok("main".to_string()));
    assert_eq!(normalize_branch("feature/x"), Ok("feature/x".to_string()));
    assert_eq!(normalize_branch("  "), Err("invalid Git branch ''".to_string()));
    assert_eq!(normalize_branch("bad..name"), Err("invalid Git branch 'bad..name'".to_string()));
    assert_eq!(branch_ref("main"), "refs/heads/main");
}

#[test]
fn sync_rules() {
    assert_eq!(sync_kind(AppSource::Github, true), Ok(SyncKind::Github));
    assert_eq!(sync_kind(AppSource::Github, false), Err("GitHub integration is disabled".to_string()));
    assert_eq!(sync_kind(AppSource::Git, false), Ok(SyncKind::Git));
    assert_eq!(sync_kind(AppSource::Other, true), Ok(SyncKind::Nothing));
    assert_eq!(github_connection_ready(None), Err("GitHub connection not found".to_string()));
    assert_eq!(github_connection_ready(Some(false)), Err("GitHub connection is disconnected".to_string()));
    assert_eq!(github_connection_ready(Some(true)), Ok(()));
    assert_eq!(selected_branch(None, &"main".to_string()), "main");
    assert_eq!(selected_branch(Some("dev".to_string()), &"main".to_string()), "dev");
}

#[test]
fn branch_with_nul_is_invalid() {
    assert_eq!(normalize_branch("a\0b"), Err("invalid Git branch 'a\0b'".to_string()));
    assert_eq!(normalize_branch("refs/heads/\0"), Err("invalid Git branch '\0'".to_string()));
}
