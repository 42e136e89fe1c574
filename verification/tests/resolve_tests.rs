use clashup::resolve::{GlobalConf, ResolveError};

#[test]
fn override_wins_when_not_root() {
    let g = GlobalConf::resolve_with(
        Some("/tmp/custom.toml".to_string()),
        false,
        Some("/home/u/.config".to_string()),
    )
    .expect("resolve");
    assert_eq!(g.config_path, "/tmp/custom.toml");
    assert!(!g.is_root);
}

#[test]
fn override_wins_when_root() {
    let g = GlobalConf::resolve_with(Some("/tmp/custom.toml".to_string()), true, None)
        .expect("resolve");
    assert_eq!(g.config_path, "/tmp/custom.toml");
    assert!(g.is_root);
}

#[test]
fn root_gets_system_path() {
    let g = GlobalConf::resolve_with(None, true, None).expect("resolve");
    assert_eq!(g.config_path, "/etc/clash/clashup.toml");
    assert!(g.is_root);
}

#[test]
fn root_ignores_user_dir() {
    let g = GlobalConf::resolve_with(None, true, Some("/home/u/.config".to_string()))
        .expect("resolve");
    assert_eq!(g.config_path, "/etc/clash/clashup.toml");
}

#[test]
fn user_gets_config_dir_path() {
    let g = GlobalConf::resolve_with(None, false, Some("/home/u/.config".to_string()))
        .expect("resolve");
    assert_eq!(g.config_path, "/home/u/.config/clash/clashup.toml");
    assert!(!g.is_root);
}

#[test]
fn user_dir_with_trailing_separator() {
    let g = GlobalConf::resolve_with(None, false, Some("/home/u/.config/".to_string()))
        .expect("resolve");
    assert_eq!(g.config_path, "/home/u/.config/clash/clashup.toml");
}

#[test]
fn missing_user_dir_is_fatal_error() {
    let e = GlobalConf::resolve_with(None, false, None).unwrap_err();
    assert_eq!(e, ResolveError::NoUserConfigDir);
}

#[test]
fn ambient_resolve_honors_override() {
    let g = GlobalConf::resolve(Some("/tmp/clashup-override.toml".to_string()))
        .expect("resolve");
    assert_eq!(g.config_path, "/tmp/clashup-override.toml");
}

#[test]
fn ambient_resolve_defaults_are_wellformed() {
    match GlobalConf::resolve(None) {
        Ok(g) => {
            if g.is_root {
                assert_eq!(g.config_path, "/etc/clash/clashup.toml");
            } else {
                assert!(g.config_path.ends_with("clash/clashup.toml"));
            }
        }
        Err(e) => assert_eq!(e, ResolveError::NoUserConfigDir),
    }
}
