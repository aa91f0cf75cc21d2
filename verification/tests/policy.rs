use mcp_cache_ci::policy::{choose_path, policy_source, resolve_policy_path, PolicySource};
use std::path::PathBuf;

fn path(text: &str) -> PathBuf {
    PathBuf::from(text)
}

#[test]
fn default_policy_without_a_path() {
    assert!(matches!(policy_source(&path("conf/proxy.toml"), &None), PolicySource::Default));
}

#[test]
fn policy_from_a_file() {
    match policy_source(&path("conf/proxy.toml"), &Some("policy.json".to_string())) {
        PolicySource::File(file) => assert_eq!(file, path("conf").join("policy.json")),
        PolicySource::Default => panic!("default policy"),
    }
}

#[test]
fn relative_path_is_beside_the_config() {
    assert_eq!(
        resolve_policy_path(&path("etc/app/proxy.toml"), "sub/policy.json"),
        path("etc/app/sub/policy.json")
    );
    assert_eq!(
        resolve_policy_path(&path("etc/app/other.toml"), "sub/policy.json"),
        path("etc/app/sub/policy.json")
    );
    assert_eq!(resolve_policy_path(&path("proxy.toml"), "policy.json"), path("policy.json"));
}

#[test]
fn relative_path_without_a_directory_stays() {
    assert_eq!(resolve_policy_path(&path(""), "policy.json"), path("policy.json"));
    assert_eq!(resolve_policy_path(&path("/"), "policy.json"), path("policy.json"));
}

#[test]
fn absolute_path_stays() {
    let absolute = if path("/a").is_absolute() { "/srv/policy.json" } else { "c:\\srv\\policy.json" };
    assert_eq!(resolve_policy_path(&path("etc/proxy.toml"), absolute), path(absolute));
    assert_eq!(resolve_policy_path(&path("other/proxy.toml"), absolute), path(absolute));
}

#[test]
fn path_is_chosen() {
    assert_eq!(choose_path(path("a"), true, Some(path("b"))), path("a"));
    assert_eq!(choose_path(path("a"), true, None), path("a"));
    assert_eq!(choose_path(path("a"), false, Some(path("b"))), path("b"));
    assert_eq!(choose_path(path("a"), false, None), path("a"));
}
