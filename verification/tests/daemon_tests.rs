use livewall::config::{Config, OutputConfig};
use livewall::daemon::{default_assignments, effective_max_fps, set_reply, validate_path, Daemon, Effect, Step};
use livewall::frame::DecodePath;
use livewall::ipc::{Reply, Request};
use livewall::types::{HwDecPreference, ScaleMode};

fn ack(step: &Step) -> (String, &Effect) {
    match step {
        Step::Done { reply: Reply::Ack { message: Some(m) }, effect } => (m.clone(), effect),
        other => panic!("unexpected step {:?}", other),
    }
}

fn daemon() -> Daemon {
    Daemon::new(Config::default())
}

#[test]
fn control_requests_answer_and_change_state() {
    let mut d = daemon();
    match d.dispatch(Request::Ping) {
        Step::Done { reply: Reply::Pong, effect: Effect::Nothing } => {}
        other => panic!("{:?}", other),
    }
    let s = d.dispatch(Request::Pause);
    assert_eq!(ack(&s).0, "paused");
    assert!(d.paused && !d.auto_paused);
    let s = d.dispatch(Request::Resume);
    assert_eq!(ack(&s).0, "resumed");
    assert!(!d.paused);
    let s = d.dispatch(Request::SetHwdec { hwdec: HwDecPreference::Vaapi });
    assert_eq!(ack(&s).0, "hwdec set to vaapi");
    assert_eq!(d.cfg.hwdec, HwDecPreference::Vaapi);
    let s = d.dispatch(Request::Shutdown);
    let (m, e) = ack(&s);
    assert_eq!(m, "shutting down");
    assert!(matches!(e, Effect::ShutdownDisplay));
    assert!(d.exit);
    assert!(matches!(d.dispatch(Request::Status), Step::Status));
    match d.dispatch(Request::SetWallpaper { output: "eDP-1".into(), path: "/w.png".into(), mode: None, save: true }) {
        Step::SetWallpaper { output, path, mode, save } => {
            assert_eq!(output, "eDP-1");
            assert_eq!(path, "/w.png");
            assert_eq!(mode, None);
            assert!(save);
        }
        other => panic!("{:?}", other),
    }
}

#[test]
fn manual_pause_survives_power_policy() {
    let mut d = daemon();
    d.dispatch(Request::Pause);
    assert!(!d.power_probe_needed());
    d.tick_power_policy(false, false);
    assert!(d.paused);
    d.tick_power_policy(true, true);
    assert!(d.paused && !d.auto_paused);
}

#[test]
fn power_policy_pauses_and_resumes_automatically() {
    let mut d = daemon();
    assert!(d.power_probe_needed());
    d.tick_power_policy(true, false);
    assert!(d.paused && d.auto_paused);
    d.tick_power_policy(true, false);
    assert!(d.paused && d.auto_paused);
    d.tick_power_policy(false, false);
    assert!(!d.paused && !d.auto_paused);
    d.tick_power_policy(false, true);
    assert!(d.paused && d.auto_paused);
    d.dispatch(Request::Resume);
    assert!(!d.paused);
    d.tick_power_policy(false, true);
    assert!(d.paused);
}

#[test]
fn power_policy_respects_rules() {
    let mut cfg = Config::default();
    cfg.pause.on_fullscreen = false;
    cfg.pause.on_dpms = false;
    let mut d = Daemon::new(cfg);
    d.tick_power_policy(true, true);
    assert!(!d.paused);
}

#[test]
fn set_plans_check_path_and_outputs() {
    let mut d = daemon();
    assert_eq!(d.plan_set("eDP-1", "/x.png", None, false, false, false, 1).unwrap_err(), "path does not exist: /x.png");
    assert_eq!(d.plan_set("eDP-1", "/x", None, true, false, false, 1).unwrap_err(), "path is not a file: /x");
    let e = d.plan_set("all", "/x.mp4", Some(ScaleMode::Fit), true, true, false, 0).unwrap_err();
    assert_eq!(e, "no outputs yet; saved as default and will apply shortly");
    assert_eq!(d.cfg.default_path.as_deref(), Some("/x.mp4"));
    assert_eq!(d.cfg.default_mode, ScaleMode::Fit);
    let p = d.plan_set("all", "/x.mp4", None, true, true, true, 2).unwrap();
    assert_eq!(p.key, "ALL");
    assert_eq!(p.mode, ScaleMode::Fit);
    assert_eq!(p.max_fps, 30);
    let p = d.plan_set("eDP-1", "/x.mp4", Some(ScaleMode::Center), true, true, false, 0).unwrap();
    assert_eq!(p.key, "eDP-1");
    assert_eq!(p.mode, ScaleMode::Center);
    assert_eq!(p.max_fps, 0);
    assert!(d.battery_probe_needed());
}

#[test]
fn battery_halves_frame_rate() {
    assert_eq!(effective_max_fps(0, true, true), 30);
    assert_eq!(effective_max_fps(60, true, true), 30);
    assert_eq!(effective_max_fps(1, true, true), 1);
    assert_eq!(effective_max_fps(25, true, true), 12);
    assert_eq!(effective_max_fps(60, false, true), 60);
    assert_eq!(effective_max_fps(60, true, false), 60);
}

#[test]
fn validate_path_messages() {
    assert!(validate_path("/a", true, true).is_ok());
    assert_eq!(validate_path("/a", false, false).unwrap_err(), "path does not exist: /a");
    assert_eq!(validate_path("/a", true, false).unwrap_err(), "path is not a file: /a");
}

#[test]
fn commit_clear_and_save() {
    let mut d = daemon();
    let (r, e) = d.commit_set("eDP-1", "/a.png".into(), ScaleMode::Fit, DecodePath::Image, None, false);
    assert!(matches!(r, Reply::Ack { message: Some(ref m) } if m == "ok"));
    assert!(matches!(e, Effect::Nothing));
    d.commit_set("HDMI-A-1", "/b.mp4".into(), ScaleMode::Fill, DecodePath::VaapiDmabuf, Some("w".into()), false);
    d.commit_set("eDP-1", "/c.png".into(), ScaleMode::Center, DecodePath::Image, None, false);
    assert_eq!(d.assignments.len(), 2);
    assert_eq!(d.assignments[0].path, "/c.png");
    assert_eq!(d.decode_path, DecodePath::Image);
    let s = d.dispatch(Request::Save);
    let (m, e) = ack(&s);
    assert_eq!(m, "saved");
    assert!(matches!(e, Effect::PersistConfig));
    assert_eq!(d.cfg.outputs.len(), 2);
    let starts = default_assignments(&d.cfg);
    assert!(starts.contains(&("eDP-1".to_string(), "/c.png".to_string(), ScaleMode::Center)));
    assert!(starts.contains(&("HDMI-A-1".to_string(), "/b.mp4".to_string(), ScaleMode::Fill)));
    let s = d.dispatch(Request::Clear { output: "eDP-1".into() });
    assert_eq!(ack(&s).0, "cleared");
    assert_eq!(d.assignments.len(), 1);
    assert_eq!(d.assignments[0].output, "HDMI-A-1");
    d.commit_set("All", "/all.mp4".into(), ScaleMode::Fill, DecodePath::Soft, None, true);
    assert_eq!(d.assignments.len(), 1);
    assert_eq!(d.assignments[0].output, "ALL");
    assert_eq!(d.cfg.default_path.as_deref(), Some("/all.mp4"));
    let s = d.dispatch(Request::Clear { output: "all".into() });
    match ack(&s).1 {
        Effect::ClearDisplay { output } => assert_eq!(output, "all"),
        other => panic!("{:?}", other),
    }
    assert!(d.assignments.is_empty());
}

#[test]
fn saved_wallpapers_come_back_on_start() {
    let mut d = daemon();
    d.commit_set("ALL", "/all.mp4".into(), ScaleMode::Fit, DecodePath::Soft, None, false);
    d.commit_set("DP-2", "/dp.png".into(), ScaleMode::Stretch, DecodePath::Image, None, false);
    d.dispatch(Request::Save);
    let starts = default_assignments(&d.cfg);
    assert_eq!(starts[0], ("ALL".to_string(), "/all.mp4".to_string(), ScaleMode::Fit));
    assert!(starts.contains(&("DP-2".to_string(), "/dp.png".to_string(), ScaleMode::Stretch)));
}

#[test]
fn start_up_assignments_follow_the_configuration() {
    let mut cfg = Config::default();
    cfg.default_path = Some("/d.png".into());
    cfg.default_mode = ScaleMode::Fit;
    cfg.outputs.push(("A".into(), OutputConfig { path: Some("/a.png".into()), mode: None }));
    cfg.outputs.push(("B".into(), OutputConfig { path: None, mode: Some(ScaleMode::Center) }));
    cfg.outputs.push(("C".into(), OutputConfig { path: Some("/c.png".into()), mode: Some(ScaleMode::Stretch) }));
    let v = default_assignments(&cfg);
    assert_eq!(v, vec![
        ("ALL".to_string(), "/d.png".to_string(), ScaleMode::Fit),
        ("A".to_string(), "/a.png".to_string(), ScaleMode::Fit),
        ("C".to_string(), "/c.png".to_string(), ScaleMode::Stretch),
    ]);
}

#[test]
fn status_summary_takes_last_reports() {
    let mut d = daemon();
    d.commit_set("X", "/x".into(), ScaleMode::Fill, DecodePath::Soft, Some("global".into()), false);
    let s = d.status_summary(&vec![]);
    assert_eq!(s.decode_path, "soft");
    assert_eq!(s.efficiency_warning.as_deref(), Some("global"));
    assert_eq!(s.hwdec, "auto");
    assert!(!s.paused);
    let slots = vec![
        (DecodePath::VaapiDmabuf, Some("first".to_string())),
        (DecodePath::Idle, None),
        (DecodePath::Image, None),
    ];
    let s = d.status_summary(&slots);
    assert_eq!(s.decode_path, "image");
    assert_eq!(s.efficiency_warning.as_deref(), Some("first"));
    let s = d.status_summary(&vec![(DecodePath::Idle, None)]);
    assert_eq!(s.decode_path, "soft");
}

#[test]
fn set_requests_are_answered_by_outcome() {
    match set_reply(Ok(())) {
        Reply::Ack { message } => assert_eq!(message.as_deref(), Some("ok")),
        other => panic!("unexpected {:?}", other),
    }
    match set_reply(Err("path does not exist: /nope".to_string())) {
        Reply::Error { message } => assert_eq!(message, "path does not exist: /nope"),
        other => panic!("unexpected {:?}", other),
    }
}
