use gack::config::{parse_config_text, Config, ConfigFile, ConfigSource, MouseMode, WatchMode};

#[test]
fn parses_supported_config_subset() {
    let mut config = Config::default();
    parse_config_text(
        r#"
[ui]
mouse = "never"

[git]
auto_refresh_ms = 1500
filesystem_watch = "always"
"#,
        &mut config,
    )
    .unwrap();
    assert_eq!(config.ui.mouse, MouseMode::Never);
    assert_eq!(config.git.auto_refresh_ms, Some(1500));
    assert_eq!(config.git.filesystem_watch, WatchMode::Always);
}

#[test]
fn obsolete_ai_config_is_ignored() {
    let mut config = Config::default();
    parse_config_text(
        r#"
[ui]
mouse = "never"

[ai.commit]
command = "danger"
"#,
        &mut config,
    )
    .unwrap();
    assert_eq!(config.ui.mouse, MouseMode::Never);
}

#[test]
fn config_errors_name_the_problem() {
    let mut config = Config::default();
    assert_eq!(
        parse_config_text("[ui]\nmouse never\n", &mut config),
        Err("line 2 is not key = value".to_string())
    );
    assert_eq!(
        parse_config_text("[ui]\nmouse = never\n", &mut config),
        Err("expected quoted string, got never".to_string())
    );
    assert_eq!(
        parse_config_text("[ui]\nmouse = \"sometimes\"\n", &mut config),
        Err("unsupported mouse mode sometimes".to_string())
    );
    assert_eq!(
        parse_config_text("[git]\nauto_refresh_ms = soon\n", &mut config),
        Err("invalid auto_refresh_ms".to_string())
    );
    assert_eq!(
        parse_config_text("[git]\nfilesystem_watch = \"often\"\n", &mut config),
        Err("unsupported filesystem_watch mode often".to_string())
    );
}

#[test]
fn refresh_can_be_switched_off_and_comments_are_ignored() {
    let mut config = Config::default();
    parse_config_text("[git] # section\nauto_refresh_ms = false # off\n", &mut config).unwrap();
    assert_eq!(config.git.auto_refresh_ms, None);
    parse_config_text("[git]\nauto_refresh_ms = 0\n", &mut config).unwrap();
    assert_eq!(config.git.auto_refresh_ms, None);
}

#[test]
fn lines_before_an_error_stay_applied() {
    let mut config = Config::default();
    let result = parse_config_text("[ui]\nmouse = \"always\"\nbroken\n", &mut config);
    assert_eq!(result, Err("line 3 is not key = value".to_string()));
    assert_eq!(config.ui.mouse, MouseMode::Always);
}

#[test]
fn defaults_are_auto_with_periodic_refresh() {
    let config = Config::default();
    assert_eq!(config.ui.mouse, MouseMode::Auto);
    assert_eq!(config.git.auto_refresh_ms, Some(2500));
    assert_eq!(config.git.filesystem_watch, WatchMode::Auto);
}

#[test]
fn load_reads_user_then_project_file() {
    let user = ConfigSource {
        path: "/home/u/.config/gack/config.toml".to_string(),
        file: ConfigFile::Text("[ui]\nmouse = \"never\"\n".to_string()),
    };
    let project = ConfigSource {
        path: "/repo/.gack.toml".to_string(),
        file: ConfigFile::Text("[git]\nfilesystem_watch = \"never\"\n".to_string()),
    };
    let config = Config::load(false, false, Some(user), Some(project)).unwrap();
    assert_eq!(config.ui.mouse, MouseMode::Never);
    assert_eq!(config.git.filesystem_watch, WatchMode::Never);
}

#[test]
fn load_errors_and_no_config() {
    let missing = ConfigSource { path: "/x.toml".to_string(), file: ConfigFile::Missing };
    assert_eq!(
        Config::load(false, true, Some(missing), None).unwrap_err(),
        "config /x.toml does not exist"
    );
    let missing = ConfigSource { path: "/x.toml".to_string(), file: ConfigFile::Missing };
    assert_eq!(Config::load(false, false, Some(missing), None).unwrap(), Config::default());
    let bad = ConfigSource { path: "/y.toml".to_string(), file: ConfigFile::Text("oops\n".to_string()) };
    assert_eq!(
        Config::load(false, false, Some(bad), None).unwrap_err(),
        "invalid config /y.toml: line 1 is not key = value"
    );
    let unreadable = ConfigSource { path: "/z.toml".to_string(), file: ConfigFile::Unreadable("denied".to_string()) };
    assert_eq!(
        Config::load(false, false, Some(unreadable), None).unwrap_err(),
        "could not read config /z.toml: denied"
    );
    let bad = ConfigSource { path: "/y.toml".to_string(), file: ConfigFile::Text("oops\n".to_string()) };
    assert_eq!(Config::load(true, false, Some(bad), None).unwrap(), Config::default());
}
