use livewall::ctl::{
    current_path, cycle_index, cycle_pick, is_media_path, parse_hwdec, parse_mode, random_index, random_pick,
    sort_paths, systemd_user_dir, unit_contents, unit_path,
};
use livewall::text::{path_components_of, path_less, same_path};
use livewall::ipc::OutputStatus;
use livewall::types::{HwDecPreference, ScaleMode};

#[test]
fn option_parsing() {
    assert_eq!(parse_mode("Fill").unwrap(), ScaleMode::Fill);
    assert_eq!(parse_mode("tile").unwrap_err(), "invalid scale mode: tile");
    assert_eq!(parse_hwdec("sw").unwrap(), HwDecPreference::Soft);
    assert_eq!(parse_hwdec("gpu").unwrap_err(), "invalid hwdec: gpu");
}

fn out(name: &str, path: Option<&str>) -> OutputStatus {
    OutputStatus {
        name: name.into(),
        width: 1,
        height: 1,
        refresh_mhz: 60000,
        path: path.map(|p| p.into()),
        kind: None,
        mode: ScaleMode::Fill,
        playing: true,
    }
}

#[test]
fn current_wallpaper_lookup() {
    let o = vec![out("A", None), out("B", Some("/b.png")), out("C", Some("/c.png"))];
    assert_eq!(current_path("ALL", Some(&o)).as_deref(), Some("/b.png"));
    assert_eq!(current_path("C", Some(&o)).as_deref(), Some("/c.png"));
    assert_eq!(current_path("A", Some(&o)), None);
    assert_eq!(current_path("Z", Some(&o)), None);
    assert_eq!(current_path("ALL", None), None);
}

fn files() -> Vec<String> {
    vec!["/w/a.png".into(), "/w/b.mp4".into(), "/w/c.gif".into()]
}

#[test]
fn cycling_through_a_folder() {
    let f = files();
    assert_eq!(cycle_index(&f, &Some("/w/b.mp4".into()), true), 2);
    assert_eq!(cycle_index(&f, &Some("/w/c.gif".into()), true), 0);
    assert_eq!(cycle_index(&f, &Some("/w/a.png".into()), false), 2);
    assert_eq!(cycle_index(&f, &Some("/w/c.gif".into()), false), 1);
    assert_eq!(cycle_index(&f, &Some("/elsewhere.png".into()), false), 0);
    assert_eq!(cycle_index(&f, &None, true), 0);
}

#[test]
fn random_pick_avoids_current() {
    let f = files();
    assert_eq!(random_index(&f, 4, &None), 1);
    assert_eq!(random_index(&f, 4, &Some("/w/b.mp4".into())), 2);
    assert_eq!(random_index(&f, 5, &Some("/w/c.gif".into())), 0);
    assert_eq!(random_index(&f, 5, &Some("/w/a.png".into())), 2);
    let one: Vec<String> = vec!["/only.png".into()];
    assert_eq!(random_index(&one, 9, &Some("/only.png".into())), 0);
}

#[test]
fn media_files_by_extension() {
    for p in ["a.png", "b.JPG", "c.jpeg", "d.webp", "e.gif", "f.bmp", "g.mp4", "h.mkv", "i.webm", "j.MOV", "k.avi", "l.m4v", "m.ts"] {
        assert!(is_media_path(p), "{p}");
    }
    for p in ["notes.txt", "noext", ".png", "a.tiff"] {
        assert!(!is_media_path(p), "{p}");
    }
}

#[test]
fn systemd_unit_location_and_text() {
    assert_eq!(systemd_user_dir(Some("/x".into()), Some("/home/u".into())).unwrap(), "/x/systemd/user");
    assert_eq!(systemd_user_dir(Some("".into()), Some("/home/u".into())).unwrap(), "/home/u/.config/systemd/user");
    assert_eq!(systemd_user_dir(None, None).unwrap_err(), "HOME is not set");
    assert_eq!(unit_path("/x/systemd/user"), "/x/systemd/user/livewall.service");
    let u = unit_contents("/usr/bin/livewall", HwDecPreference::Vaapi);
    assert!(u.starts_with("[Unit]\nDescription=livewall Wayland wallpaper daemon\n"));
    assert!(u.contains("\nExecStart=/usr/bin/livewall --hwdec vaapi\nExecReload=/bin/kill -HUP $MAINPID\n"));
    assert!(u.ends_with("[Install]\nWantedBy=graphical-session.target\n"));
}

#[test]
fn empty_folders_are_refused() {
    let none: Vec<String> = Vec::new();
    assert_eq!(cycle_pick("/walls", &none, &None, true).unwrap_err(), "no media files found in /walls");
    assert_eq!(random_pick("/walls", &none, 7, &None).unwrap_err(), "no media files found in /walls");
    let files = vec!["/w/a.png".to_string(), "/w/b.png".to_string(), "/w/c.mp4".to_string()];
    let cur = Some("/w/c.mp4".to_string());
    assert_eq!(cycle_pick("/w", &files, &cur, true), Ok(0));
    assert_eq!(cycle_pick("/w", &files, &cur, false), Ok(1));
    assert_eq!(random_pick("/w", &files, 5, &cur), Ok(0));
    assert_eq!(random_pick("/w", &files, 4, &cur), Ok(1));
}

#[test]
fn paths_compare_by_component() {
    assert!(same_path("/a/b/", "/a/b"));
    assert!(same_path("/a//b", "/a/./b"));
    assert!(!same_path("/a/b", "a/b"));
    assert!(!same_path("./a", "a"));
    assert!(!same_path("/a/../b", "/b"));
    let parts: Vec<String> = path_components_of("./x//y/./z/").iter().map(|c| c.iter().collect()).collect();
    assert_eq!(parts, vec![".", "x", "y", "z"]);
    assert!(path_less("/a/b", "/a/b/c"));
    assert!(path_less("/a/b", "/a-b"));
    assert!(!path_less("/a-b", "/a/b"));
    assert!(path_less("/a/..", "/a/b"));
    assert!(!path_less("/a/b/", "/a/b"));
}

#[test]
fn current_file_is_found_whatever_its_separators() {
    let files = vec!["/w/a.png".to_string(), "/w/b.png".to_string(), "/w/c.mp4".to_string()];
    let cur = Some("/w//b.png/".to_string());
    assert_eq!(cycle_index(&files, &cur, true), 2);
    assert_eq!(random_index(&files, 1, &cur), 2);
}

#[test]
fn folder_listing_is_sorted_by_path() {
    let files = vec![
        "/w/b-x.png".to_string(),
        "/w/b/z.png".to_string(),
        "/w/a.png".to_string(),
        "/w/B.png".to_string(),
    ];
    let sorted = sort_paths(files);
    assert_eq!(sorted, vec!["/w/B.png", "/w/a.png", "/w/b/z.png", "/w/b-x.png"]);
    assert!(sort_paths(Vec::new()).is_empty());
}

#[test]
fn equal_paths_keep_their_order_when_sorted() {
    let files = vec!["/w/b".to_string(), "/w//a".to_string(), "/w/a/".to_string(), "/w/a".to_string()];
    assert_eq!(sort_paths(files), vec!["/w//a", "/w/a/", "/w/a", "/w/b"]);
    let files = vec!["/w/a".to_string(), "/w//a".to_string()];
    assert_eq!(sort_paths(files), vec!["/w/a", "/w//a"]);
}
