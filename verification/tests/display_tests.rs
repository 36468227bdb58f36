use std::sync::Arc;

use livewall::slot::SlotState;
use livewall::surfaces::Surfaces;
use livewall::types::{ScaleMode, WallpaperKind};
use livewall::video::{
    decode_outcome, decode_request, decode_target, decoder_step, dmabuf_plane_indices,
    modifier_halves, seek_error, DecoderStep, VideoPlayerConfig,
};
use livewall::frame::DecodePath;
use livewall::types::HwDecPreference;

fn two_outputs() -> Surfaces<u8> {
    let mut s: Surfaces<u8> = Surfaces::new();
    assert!(s.ensure("eDP-1", 1920, 1080, 60000));
    assert!(s.ensure("HDMI-A-1", -5, 720, 50000));
    s
}

#[test]
fn surfaces_are_created_once_and_resized() {
    let mut s = two_outputs();
    assert_eq!(s.list.len(), 2);
    assert_eq!(s.list[1].width, 0);
    assert!(!s.ensure("HDMI-A-1", 1280, 720, 60000));
    assert_eq!(s.list.len(), 2);
    assert_eq!(s.list[1].width, 1280);
    assert_eq!(s.list[1].refresh_mhz, 60000);
    assert_eq!(s.list[0].mode, ScaleMode::Fill);
    assert!(!s.list[0].configured);
}

#[test]
fn wallpaper_commands_address_outputs() {
    let mut s = two_outputs();
    let slot = Arc::new(3u8);
    assert!(!s.set_wallpaper("all", "/v.mp4", ScaleMode::Fit, &slot));
    assert!(s.list.iter().all(|x| x.mode == ScaleMode::Fit && x.kind == Some(WallpaperKind::Video)));
    assert!(s.list.iter().all(|x| x.path.as_deref() == Some("/v.mp4")));
    assert!(s.set_wallpaper("DP-9", "/a.png", ScaleMode::Fill, &slot));
    assert!(!s.set_wallpaper("eDP-1", "/a.png", ScaleMode::Center, &slot));
    assert_eq!(s.list[0].kind, Some(WallpaperKind::Image));
    assert_eq!(s.list[1].kind, Some(WallpaperKind::Video));
    s.set_scale_mode("HDMI-A-1", ScaleMode::Stretch);
    assert_eq!(s.list[1].mode, ScaleMode::Stretch);
    s.set_scale_mode("all", ScaleMode::Fill);
    assert_eq!(s.list[1].mode, ScaleMode::Stretch);
    s.clear("eDP-1");
    assert!(s.list[0].slot.is_none() && s.list[0].path.is_none());
    assert!(s.list[1].slot.is_some());
    s.clear("ALL");
    assert!(s.list.iter().all(|x| x.slot.is_none() && x.kind.is_none()));
}

#[test]
fn only_configured_surfaces_with_a_slot_present_new_frames() {
    let mut s = two_outputs();
    let slot = Arc::new(1u8);
    s.set_wallpaper("ALL", "/a.png", ScaleMode::Fill, &slot);
    assert!(s.presentable_indices().is_empty());
    s.configure("eDP-1", 0, 0);
    assert_eq!(s.list[0].width, 1920);
    s.configure("HDMI-A-1", 800, 0);
    assert_eq!(s.list[1].width, 800);
    assert_eq!(s.list[1].height, 720);
    assert_eq!(s.presentable_indices(), vec![0, 1]);
    let mut state: SlotState<&'static str> = SlotState::new();
    state.set_frame("frame-1", DecodePath::Image);
    assert_eq!(*s.take_new_frame(0, &state).unwrap(), "frame-1");
    assert!(s.take_new_frame(0, &state).is_none());
    assert_eq!(*s.take_new_frame(1, &state).unwrap(), "frame-1");
    let st = s.status(&vec![true, false]);
    assert_eq!(st[0].name, "eDP-1");
    assert_eq!(st[0].width, 1920);
    assert!(st[0].playing);
    assert!(!st[1].playing);
    assert_eq!(st[1].path.as_deref(), Some("/a.png"));
    s.remove("eDP-1");
    assert_eq!(s.list.len(), 1);
    assert_eq!(s.list[0].name, "HDMI-A-1");
    s.remove("nope");
    assert_eq!(s.list.len(), 1);
}

fn cfg(hwdec: HwDecPreference, eff: bool) -> VideoPlayerConfig {
    VideoPlayerConfig { hwdec, efficiency_mode: eff, max_fps: 0, target_w: 0, target_h: 0 }
}

#[test]
fn decode_requests() {
    let q = decode_request(&cfg(HwDecPreference::Soft, false)).unwrap();
    assert!(!q.want_hw);
    assert_eq!(q.forced, Some(DecodePath::Soft));
    let q = decode_request(&cfg(HwDecPreference::Vulkan, true)).unwrap();
    assert!(q.want_hw && q.forced.is_none());
    assert_eq!(decode_request(&cfg(HwDecPreference::Soft, true)).unwrap_err(), "efficiency_mode forbids software decode");
}

#[test]
fn decode_targets_only_shrink() {
    let mut c = cfg(HwDecPreference::Auto, false);
    assert_eq!(decode_target(&c, 3840, 2160), None);
    c.target_w = 1920;
    c.target_h = 1080;
    assert_eq!(decode_target(&c, 3840, 2160), Some((1920, 1080)));
    assert_eq!(decode_target(&c, 1280, 720), None);
    assert_eq!(decode_target(&c, 3840, 720), Some((1920, 720)));
    assert_eq!(decode_target(&c, 0, 0), None);
}

#[test]
fn decode_outcomes_and_warnings() {
    let c = cfg(HwDecPreference::Auto, false);
    let (p, w) = decode_outcome(&c, None, true, false, None).unwrap();
    assert_eq!(p, DecodePath::VaapiDmabuf);
    assert!(w.is_none());
    let (p, w) = decode_outcome(&c, None, true, true, None).unwrap();
    assert_eq!(p, DecodePath::VaapiDmabuf);
    assert_eq!(w.unwrap(), "hybrid GPU: VA-API decode, SHM present (works on HDMI/dGPU)");
    let (p, w) = decode_outcome(&c, None, false, false, None).unwrap();
    assert_eq!(p, DecodePath::Soft);
    assert_eq!(w.unwrap(), "using software decode (higher CPU/RAM)");
    let (_, w) = decode_outcome(&c, None, false, false, Some("from decoder".into())).unwrap();
    assert_eq!(w.unwrap(), "from decoder");
    let (p, w) = decode_outcome(&cfg(HwDecPreference::Vulkan, false), None, true, false, None).unwrap();
    assert_eq!(p, DecodePath::VaapiDmabuf);
    assert_eq!(w.unwrap(), "Vulkan Video decode not yet wired; using VA-API DMA-BUF");
    let e = decode_outcome(&cfg(HwDecPreference::Auto, true), None, false, false, None).unwrap_err();
    assert_eq!(e, "efficiency_mode requires VA-API; hardware decode unavailable");
    let (p, w) = decode_outcome(&cfg(HwDecPreference::Soft, false), Some(DecodePath::Soft), false, false, None).unwrap();
    assert_eq!(p, DecodePath::Soft);
    assert_eq!(w.unwrap(), "using software decode (higher CPU/RAM)");
}

#[test]
fn decoder_codes() {
    assert_eq!(decoder_step(0).unwrap(), DecoderStep::Finished);
    assert_eq!(decoder_step(1).unwrap(), DecoderStep::Rgb);
    assert_eq!(decoder_step(2).unwrap(), DecoderStep::Dmabuf);
    assert_eq!(decoder_step(-1).unwrap_err(), "decode error");
    assert_eq!(decoder_step(7).unwrap_err(), "unexpected decoder code 7");
    assert_eq!(decoder_step(-22).unwrap_err(), "unexpected decoder code -22");
    assert_eq!(decoder_step(i32::MIN).unwrap_err(), format!("unexpected decoder code {}", i32::MIN));
    assert_eq!(seek_error(-5), "seek failed (-5)");
}

#[test]
fn dmabuf_planes_and_modifiers() {
    assert_eq!(dmabuf_plane_indices(3, &[5, -1, 7, 9]), vec![0, 2]);
    assert_eq!(dmabuf_plane_indices(0, &[5, 6, 7, 8]), Vec::<usize>::new());
    assert_eq!(modifier_halves(0x0123_4567_89ab_cdef), (0x0123_4567, 0x89ab_cdef));
    assert_eq!(modifier_halves(u64::MAX), (u32::MAX, u32::MAX));
}

#[test]
fn each_output_presents_its_own_slots_frame() {
    let mut s = two_outputs();
    s.configure("eDP-1", 0, 0);
    s.configure("HDMI-A-1", 1280, 0);
    let left = Arc::new(1u8);
    let right = Arc::new(2u8);
    s.set_wallpaper("eDP-1", "/a.png", ScaleMode::Fill, &left);
    s.set_wallpaper("HDMI-A-1", "/b.mp4", ScaleMode::Fit, &right);
    let due = s.presentable_indices();
    assert_eq!(due, vec![0, 1]);

    let mut a: SlotState<&'static str> = SlotState::new();
    let mut b: SlotState<&'static str> = SlotState::new();
    a.set_frame("left-1", DecodePath::Image);
    b.set_frame("right-1", DecodePath::Soft);
    b.set_frame("right-2", DecodePath::Soft);
    let offered = vec![a.published_frame(), b.published_frame()];
    let got = s.take_due_frames(&due, &offered);
    assert_eq!(got.len(), 2);
    assert_eq!(*got[0].clone().unwrap(), "left-1");
    assert_eq!(*got[1].clone().unwrap(), "right-2");
    assert_eq!(s.list[0].last_frame_gen, 1);
    assert_eq!(s.list[1].last_frame_gen, 2);

    // Nothing new on the left, a new frame on the right.
    b.set_frame("right-3", DecodePath::Soft);
    let offered = vec![a.published_frame(), b.published_frame()];
    let got = s.take_due_frames(&due, &offered);
    assert!(got[0].is_none());
    assert_eq!(*got[1].clone().unwrap(), "right-3");
}
