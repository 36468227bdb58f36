use livewall::config::{
    config_dir, config_path, config_path_in, names_all, set_output_entry, socket_path_from, Config,
    ConfigError, OutputConfig, PauseRules,
};
use livewall::text::join;
use livewall::types::{HwDecPreference, ScaleMode};

#[test]
fn config_defaults() {
    let c = Config::default();
    assert!(c.default_path.is_none());
    assert_eq!(c.default_mode, ScaleMode::Fill);
    assert_eq!(c.hwdec, HwDecPreference::Auto);
    assert!(c.mute);
    assert!(!c.efficiency_mode);
    assert_eq!(c.max_fps, 0);
    assert!(c.pause.on_dpms && c.pause.on_fullscreen && c.pause.half_fps_on_battery);
    assert!(c.outputs.is_empty());
    let p = PauseRules::default();
    assert!(p.on_dpms && p.on_fullscreen && p.half_fps_on_battery);
    let o = OutputConfig::default();
    assert!(o.path.is_none() && o.mode.is_none());
}

#[test]
fn join_inserts_one_separator() {
    assert_eq!(join("/home/a", "b"), "/home/a/b");
    assert_eq!(join("/home/a/", "b"), "/home/a/b");
    assert_eq!(join("", "b"), "b");
    assert_eq!(join("/", "b"), "/b");
}

#[test]
fn config_path_is_config_toml_in_the_directory() {
    assert_eq!(config_path_in(Ok("/home/a/.config/livewall".to_string())).unwrap(), "/home/a/.config/livewall/config.toml");
    assert_eq!(config_path_in(Err(ConfigError::NoConfigDir)).unwrap_err(), ConfigError::NoConfigDir);
    if let Ok(p) = config_path() {
        assert!(p.ends_with("/config.toml"));
        assert!(p.len() > "/config.toml".len());
    }
}

#[test]
fn socket_path_prefers_runtime_dir() {
    assert_eq!(socket_path_from(Some("/run/user/1000".to_string()), "/tmp"), "/run/user/1000/walld.sock");
    assert_eq!(socket_path_from(None, "/tmp"), "/tmp/walld.sock");
}

#[test]
fn all_is_case_insensitive() {
    assert!(names_all("ALL"));
    assert!(names_all("all"));
    assert!(names_all("AlL"));
    assert!(!names_all("ALL1"));
    assert!(!names_all("eDP-1"));
}

#[test]
fn output_entries_are_replaced_by_name() {
    let mut v: Vec<(String, OutputConfig)> = Vec::new();
    set_output_entry(&mut v, "eDP-1".into(), OutputConfig { path: Some("/a.png".into()), mode: None });
    set_output_entry(&mut v, "HDMI-A-1".into(), OutputConfig { path: None, mode: Some(ScaleMode::Fit) });
    set_output_entry(&mut v, "eDP-1".into(), OutputConfig { path: Some("/b.png".into()), mode: Some(ScaleMode::Center) });
    assert_eq!(v.len(), 2);
    assert_eq!(v[0].0, "eDP-1");
    assert_eq!(v[0].1.path.as_deref(), Some("/b.png"));
    assert_eq!(v[0].1.mode, Some(ScaleMode::Center));
    assert_eq!(v[1].0, "HDMI-A-1");
}

#[test]
fn absolute_parts_replace_the_base() {
    assert_eq!(join("/home/u", "/etc/x"), "/etc/x");
    assert_eq!(join("/home/u/", "b"), "/home/u/b");
    assert_eq!(join("", "b"), "b");
}

#[test]
fn config_lives_in_a_livewall_directory() {
    if let Ok(d) = config_dir() {
        assert!(d.ends_with("/livewall"));
        assert_eq!(config_path().unwrap(), format!("{d}/config.toml"));
    }
}
