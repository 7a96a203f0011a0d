//! Where the configuration lies.
use otter_ai::paths::{
    config_dir, config_path, home_dir, join_path, ConfigEnv, OTTER_CONFIG_DIR_ENV,
    OTTER_HOME_DIRNAME, OTTER_XDG_DIRNAME,
};

/// The configuration variables of a process, as it finds them.
fn env_of(vars: &[(&str, &str)]) -> ConfigEnv {
    let find = |name: &str| vars.iter().find(|v| v.0 == name).map(|v| v.1.to_string());
    ConfigEnv {
        config_dir: find(OTTER_CONFIG_DIR_ENV),
        xdg_config_home: find("XDG_CONFIG_HOME"),
        home: home_dir(find("HOME"), None),
    }
}

#[test]
fn env_override_is_respected() {
    let env = env_of(&[("OTTER_CONFIG_DIR", "/tmp/otter-test-override"), ("HOME", "/home/u")]);
    assert_eq!(
        std::path::PathBuf::from(config_dir(&env).unwrap()),
        std::path::PathBuf::from("/tmp/otter-test-override")
    );
}

#[test]
fn resolves_a_directory_when_home_exists() {
    let got = config_dir(&env_of(&[("HOME", "/home/u")]));
    assert!(got.is_some(), "expected to find a home dir, got None");
    let path = std::path::PathBuf::from(got.unwrap());
    assert!(
        path.ends_with(OTTER_HOME_DIRNAME) || path.ends_with(OTTER_XDG_DIRNAME),
        "expected config dir to end with .otter or /otter, got {}",
        path.display()
    );
}

#[test]
fn config_path_appends_relative_segment() {
    let env = env_of(&[("OTTER_CONFIG_DIR", "/tmp/otter-cfg")]);
    assert_eq!(
        std::path::PathBuf::from(config_path(&env, "agent/auth.json").unwrap()),
        std::path::PathBuf::from("/tmp/otter-cfg/agent/auth.json")
    );
}

#[test]
fn nothing_is_found_without_any_variable() {
    assert!(config_dir(&env_of(&[])).is_none());
    assert!(config_path(&env_of(&[]), "agent/auth.json").is_none());
}

#[test]
fn home_is_used_before_the_listed_one() {
    assert_eq!(home_dir(Some("/a".into()), Some("/b".into())).as_deref(), Some("/a"));
    assert_eq!(home_dir(Some("".into()), Some("/b".into())).as_deref(), Some("/b"));
    assert_eq!(home_dir(None, None), None);
}

#[test]
fn paths_are_joined_with_one_slash() {
    assert_eq!(join_path("/a", "b/c"), "/a/b/c");
    assert_eq!(join_path("/a/", "b"), "/a/b");
    assert_eq!(join_path("", "b"), "b");
    assert_eq!(join_path("/a", "/b"), "/b");
}
