use std::sync::Arc;

use livewall::frame::{DecodePath, Frame};
use livewall::image_player::{delay_ns, DecodedFrame, ImagePlayer};
use livewall::present::{check_fits_pool, needs_new_pool, playback_action, pool_size_for, PlaybackAction};
use livewall::slot::SlotState;
use livewall::types::WallpaperKind;

type F = Frame<()>;

fn pixels(f: &F) -> &Vec<u8> {
    match f {
        Frame::Shm { pixels, .. } => pixels,
        _ => panic!("not shm"),
    }
}

#[test]
fn rgb8_becomes_bgrx() {
    let rgb = [1u8, 2, 3, 4, 5, 6];
    let f: F = Frame::from_rgb8(2, 1, &rgb);
    assert_eq!(f.width(), 2);
    assert_eq!(f.height(), 1);
    match &f {
        Frame::Shm { stride, .. } => assert_eq!(*stride, 8),
        _ => panic!(),
    }
    assert_eq!(pixels(&f), &vec![3, 2, 1, 0xff, 6, 5, 4, 0xff]);
}

#[test]
fn rgba8_keeps_alpha() {
    let rgba = [10u8, 20, 30, 40, 50, 60, 70, 80];
    let f: F = Frame::from_rgba8(1, 2, &rgba);
    assert_eq!(pixels(&f), &vec![30, 20, 10, 40, 70, 60, 50, 80]);
}

#[test]
fn solid_fill_and_empty_frames() {
    let f: F = Frame::solid(2, 2, 0x10, 0x10, 0x14);
    assert_eq!(pixels(&f), &[0x14u8, 0x10, 0x10, 0xff].repeat(4));
    let e: F = Frame::from_rgb8(0, 5, &[]);
    assert!(pixels(&e).is_empty());
}

#[test]
fn slot_generations() {
    let mut s: SlotState<u32> = SlotState::new();
    let mut seen = 0u64;
    assert!(s.frame_if_newer(&mut seen).is_none());
    s.set_frame(7, DecodePath::Soft);
    assert!(s.playing);
    assert_eq!(s.decode_path, DecodePath::Soft);
    let f = s.frame_if_newer(&mut seen).unwrap();
    assert_eq!(*f, 7);
    assert!(Arc::ptr_eq(&f, s.latest.as_ref().unwrap()));
    assert_eq!(seen, 1);
    assert!(s.frame_if_newer(&mut seen).is_none());
    s.generation = u64::MAX;
    s.set_frame(8, DecodePath::Soft);
    assert_eq!(s.generation, 0);
    let mut other = 5u64;
    assert_eq!(*s.frame_if_newer(&mut other).unwrap(), 8);
    s.set_source("/v.mp4".into(), WallpaperKind::Video);
    assert_eq!(s.kind, Some(WallpaperKind::Video));
}

#[test]
fn gif_delays_in_nanoseconds() {
    assert_eq!(delay_ns(100, 1), 100_000_000);
    assert_eq!(delay_ns(1, 3), 333_333);
    assert_eq!(delay_ns(7, 2), 3_500_000);
    assert_eq!(delay_ns(0, 1), 0);
    let d: std::time::Duration = image::Delay::from_numer_denom_ms(7, 2).into();
    assert_eq!(d.as_nanos() as u64, delay_ns(7, 2));
}

fn frame(w: u32, h: u32, n: u32, d: u32) -> DecodedFrame {
    DecodedFrame { width: w, height: h, rgba: vec![9; (4 * w * h) as usize], delay_numer: n, delay_denom: d }
}

#[test]
fn animation_plays_in_order_and_loops_on_reset() {
    let mut p: ImagePlayer<()> = ImagePlayer::from_animation(vec![frame(1, 1, 40, 1), frame(2, 1, 0, 1)]).unwrap();
    assert_eq!(p.last_delay(), 100_000_000);
    let a = p.next_frame().unwrap().unwrap();
    assert_eq!(a.width(), 1);
    assert_eq!(p.last_delay(), 40_000_000);
    let b = p.next_frame().unwrap().unwrap();
    assert_eq!(b.width(), 2);
    assert_eq!(p.last_delay(), 100_000_000);
    assert!(p.next_frame().unwrap().is_none());
    p.reset();
    assert_eq!(p.next_frame().unwrap().unwrap().width(), 1);
}

#[test]
fn empty_animation_is_refused() {
    let r: Result<ImagePlayer<()>, String> = ImagePlayer::from_animation(vec![]);
    assert_eq!(r.unwrap_err(), "animation contained no frames");
    let short = DecodedFrame { width: 2, height: 2, rgba: vec![0; 3], delay_numer: 1, delay_denom: 1 };
    let r: Result<ImagePlayer<()>, String> = ImagePlayer::from_animation(vec![short]);
    assert_eq!(r.unwrap_err(), "animation frame");
}

fn png_bytes() -> Vec<u8> {
    let mut img = image::RgbaImage::new(2, 1);
    img.put_pixel(0, 0, image::Rgba([1, 2, 3, 4]));
    img.put_pixel(1, 0, image::Rgba([5, 6, 7, 8]));
    let mut out = std::io::Cursor::new(Vec::new());
    img.write_to(&mut out, image::ImageFormat::Png).unwrap();
    out.into_inner()
}

#[test]
fn still_png_is_decoded_once() {
    let data = png_bytes();
    let mut p: ImagePlayer<()> = ImagePlayer::open("/x/wall.PNG", &data).unwrap();
    let f = p.next_frame().unwrap().unwrap();
    assert_eq!(pixels(&f), &vec![3, 2, 1, 4, 7, 6, 5, 8]);
    assert!(p.next_frame().unwrap().is_none());
    let e: Result<ImagePlayer<()>, String> = ImagePlayer::open("/x/wall.jpg", b"not an image");
    assert_eq!(e.unwrap_err(), "opening image /x/wall.jpg");
    let e: Result<ImagePlayer<()>, String> = ImagePlayer::open("/x/noext", &data);
    assert_eq!(e.unwrap_err(), "opening image /x/noext");
}

fn gif_bytes() -> Vec<u8> {
    let mut out = Vec::new();
    {
        let mut enc = image::codecs::gif::GifEncoder::new(&mut out);
        let f1 = image::Frame::from_parts(
            image::RgbaImage::from_pixel(1, 1, image::Rgba([255, 0, 0, 255])),
            0,
            0,
            image::Delay::from_numer_denom_ms(50, 1),
        );
        let f2 = image::Frame::from_parts(
            image::RgbaImage::from_pixel(1, 1, image::Rgba([0, 0, 255, 255])),
            0,
            0,
            image::Delay::from_numer_denom_ms(70, 1),
        );
        enc.encode_frames(vec![f1, f2]).unwrap();
    }
    out
}

#[test]
fn gif_plays_as_animation() {
    let data = gif_bytes();
    let mut p: ImagePlayer<()> = ImagePlayer::open("a.gif", &data).unwrap();
    let f = p.next_frame().unwrap().unwrap();
    assert_eq!(pixels(&f), &vec![0, 0, 255, 255]);
    assert_eq!(p.last_delay(), 50_000_000);
    let f = p.next_frame().unwrap().unwrap();
    assert_eq!(pixels(&f), &vec![255, 0, 0, 255]);
    assert_eq!(p.last_delay(), 70_000_000);
    let e: Result<ImagePlayer<()>, String> = ImagePlayer::open("a.gif", b"GIF89a");
    assert!(e.is_err());
}

#[test]
fn pool_sizes_and_playback_steps() {
    assert_eq!(pool_size_for(0), 0);
    assert_eq!(pool_size_for(1), 4096);
    assert_eq!(pool_size_for(4096), 4096);
    assert_eq!(pool_size_for(4097), 8192);
    assert!(needs_new_pool(None, 10));
    assert!(needs_new_pool(Some(9), 10));
    assert!(!needs_new_pool(Some(10), 10));
    assert_eq!(check_fits_pool(11, 10).unwrap_err(), "frame larger than shm pool");
    assert!(check_fits_pool(10, 10).is_ok());
    assert_eq!(playback_action(true, true), PlaybackAction::Stop);
    assert_eq!(playback_action(false, true), PlaybackAction::Wait);
    assert_eq!(playback_action(false, false), PlaybackAction::Advance);
}

fn webp_bytes() -> Vec<u8> {
    let mut img = image::RgbaImage::new(1, 2);
    img.put_pixel(0, 0, image::Rgba([9, 8, 7, 255]));
    img.put_pixel(0, 1, image::Rgba([1, 2, 3, 255]));
    let mut out = std::io::Cursor::new(Vec::new());
    img.write_to(&mut out, image::ImageFormat::WebP).unwrap();
    out.into_inner()
}

#[test]
fn still_webp_is_decoded_as_image() {
    let data = webp_bytes();
    let mut p: ImagePlayer<()> = ImagePlayer::open("/pics/Still.WebP", &data).unwrap();
    let f = p.next_frame().unwrap().unwrap();
    assert_eq!(f.width(), 1);
    assert_eq!(f.height(), 2);
    assert_eq!(pixels(&f), &vec![7, 8, 9, 255, 3, 2, 1, 255]);
    assert!(p.next_frame().unwrap().is_none());
    let e: Result<ImagePlayer<()>, String> = ImagePlayer::open("/pics/bad.webp", b"RIFF");
    assert_eq!(e.unwrap_err(), "opening image /pics/bad.webp");
}

#[test]
fn stills_become_players_or_errors() {
    let p: ImagePlayer<()> = ImagePlayer::from_still("/x/a.png", Some((1, 1, vec![1, 2, 3, 4]))).unwrap();
    assert_eq!(p.index, 0);
    assert!(p.frames.is_empty());
    match &p.static_frame {
        Some(f) => assert_eq!(pixels(f), &vec![3, 2, 1, 4]),
        None => panic!("no frame"),
    }
    let e: Result<ImagePlayer<()>, String> = ImagePlayer::from_still("/x/a.png", None);
    assert_eq!(e.unwrap_err(), "opening image /x/a.png");
    let e: Result<ImagePlayer<()>, String> = ImagePlayer::from_still("/x/a.png", Some((2, 2, vec![0; 15])));
    assert_eq!(e.unwrap_err(), "image too large");
    let e: Result<ImagePlayer<()>, String> = ImagePlayer::open("/x/a.gif", b"not a gif at all");
    assert_eq!(e.unwrap_err(), "gif decoder");
}
