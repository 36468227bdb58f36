use livewall::gpu::{is_hybrid, score_render_node, DriEntry, GpuPolicy};
use livewall::metrics::{rss_bytes_of, rss_from_statm};
use livewall::power::{battery_discharging, fullscreen_from_reply, hyprland_socket_candidates};

fn node(name: &str, driver: Option<&str>) -> DriEntry {
    DriEntry { path: format!("/dev/dri/{name}"), file_name: name.to_string(), driver: driver.map(|d| d.to_string()) }
}

#[test]
fn render_node_scores() {
    assert_eq!(score_render_node(Some("i915")), 0);
    assert_eq!(score_render_node(Some("amdgpu")), 0);
    assert_eq!(score_render_node(Some("nvidia")), 50);
    assert_eq!(score_render_node(Some("nvidia_drm")), 50);
    assert_eq!(score_render_node(Some("nouveau")), 40);
    assert_eq!(score_render_node(Some("virtio_gpu")), 20);
    assert_eq!(score_render_node(None), 20);
}

#[test]
fn hybrid_needs_two_drivers() {
    assert!(!is_hybrid(&vec![]));
    assert!(!is_hybrid(&vec![node("renderD128", Some("i915")), node("card0", Some("nvidia"))]));
    assert!(is_hybrid(&vec![node("renderD128", Some("i915")), node("renderD129", Some("nvidia"))]));
    assert!(!is_hybrid(&vec![node("renderD128", Some("i915")), node("renderD129", Some("i915")), node("renderD130", None)]));
}

#[test]
fn vaapi_device_prefers_integrated_gpu() {
    let p = GpuPolicy::new(None);
    let es = vec![node("card0", Some("i915")), node("renderD128", Some("nvidia")), node("renderD129", Some("i915")), node("renderD130", Some("xe"))];
    assert_eq!(p.vaapi_device_path(Some(&es)).as_deref(), Some("/dev/dri/renderD129"));
    assert_eq!(p.vaapi_device_path(None), None);
    assert_eq!(p.vaapi_device_path(Some(&vec![node("card0", None)])), None);
    let forced = GpuPolicy::new(Some("/dev/dri/renderD200".into()));
    assert_eq!(forced.vaapi_device_path(Some(&es)).as_deref(), Some("/dev/dri/renderD200"));
}

#[test]
fn battery_detection() {
    let s = |a: &str, b: &str| (a.to_string(), b.to_string());
    assert!(!battery_discharging(&vec![]));
    assert!(!battery_discharging(&vec![s("Mains\n", "")]));
    assert!(!battery_discharging(&vec![s("Battery\n", "Charging\n")]));
    assert!(battery_discharging(&vec![s("Mains", "Discharging"), s(" battery\n", "DISCHARGING\n")]));
}

#[test]
fn fullscreen_reply_parsing() {
    assert!(!fullscreen_from_reply(""));
    assert!(!fullscreen_from_reply("Window abc -> title:\n\tfullscreen: 0\n"));
    assert!(fullscreen_from_reply("Window abc:\nfullscreen: 1\nfullscreen: 0\n"));
    assert!(!fullscreen_from_reply("fullscreen: false\r\nfullscreen: 1"));
    assert!(fullscreen_from_reply("x\nfullscreen:2"));
    assert!(fullscreen_from_reply("fullscreen:"));
    assert!(!fullscreen_from_reply("Invalid"));
}

#[test]
fn hyprland_socket_paths() {
    let (a, b) = hyprland_socket_candidates(Some("/run/user/1000".into()), "sig");
    assert_eq!(a, "/run/user/1000/hypr/sig/.socket.sock");
    assert_eq!(b, "/run/user/1000/hypr/sig/.socket.sock");
    let (a, _) = hyprland_socket_candidates(None, "s");
    assert_eq!(a, "/tmp/hypr/s/.socket.sock");
}

#[test]
fn rss_from_statm_text() {
    assert_eq!(rss_from_statm("1000 250 30 4 0 100 0\n", 4096), 250 * 4096);
    assert_eq!(rss_from_statm("  7\t 9", 2), 18);
    assert_eq!(rss_from_statm("1", 4096), 0);
    assert_eq!(rss_from_statm("1 x", 4096), 0);
    assert_eq!(rss_from_statm("1 18446744073709551615", 2), u64::MAX);
    assert_eq!(rss_bytes_of(""), 0);
    assert!(rss_bytes_of("5 3") >= 3);
}

#[test]
fn absolute_signature_replaces_the_runtime_dir() {
    let (a, b) = hyprland_socket_candidates(Some("/run/user/1000".into()), "/abs/sig");
    assert_eq!(a, "/abs/sig/.socket.sock");
    assert_eq!(b, "/run/user/1000/hypr//abs/sig/.socket.sock");
}

#[test]
fn resident_bytes_are_at_least_the_page_count() {
    assert!(rss_bytes_of("100 25 3 1 0 40 0") >= 25);
    assert_eq!(rss_bytes_of("100"), 0);
}
