use livewall::decimal::parse_u64;
use livewall::frame::DecodePath;
use livewall::types::{HwDecPreference, ScaleMode, WallpaperKind};

#[test]
fn scale_mode_parse_accepts_aliases_in_any_case() {
    assert_eq!(ScaleMode::parse("fill"), Some(ScaleMode::Fill));
    assert_eq!(ScaleMode::parse("COVER"), Some(ScaleMode::Fill));
    assert_eq!(ScaleMode::parse("Fit"), Some(ScaleMode::Fit));
    assert_eq!(ScaleMode::parse("contain"), Some(ScaleMode::Fit));
    assert_eq!(ScaleMode::parse("stretch"), Some(ScaleMode::Stretch));
    assert_eq!(ScaleMode::parse("CeNtEr"), Some(ScaleMode::Center));
    assert_eq!(ScaleMode::parse("tile"), None);
    assert_eq!(ScaleMode::parse(""), None);
    assert_eq!(ScaleMode::parse("fill "), None);
}

#[test]
fn scale_mode_names_round_trip() {
    for m in [ScaleMode::Fill, ScaleMode::Fit, ScaleMode::Stretch, ScaleMode::Center] {
        assert_eq!(ScaleMode::parse(m.as_str()), Some(m));
    }
    assert_eq!(ScaleMode::Fill.as_str(), "fill");
    assert_eq!(ScaleMode::Center.as_str(), "center");
    assert_eq!(ScaleMode::default(), ScaleMode::Fill);
}

#[test]
fn hwdec_parse_accepts_aliases() {
    assert_eq!(HwDecPreference::parse("auto"), Some(HwDecPreference::Auto));
    assert_eq!(HwDecPreference::parse("VAAPI"), Some(HwDecPreference::Vaapi));
    assert_eq!(HwDecPreference::parse("vulkan-video"), Some(HwDecPreference::Vulkan));
    assert_eq!(HwDecPreference::parse("Vulkan"), Some(HwDecPreference::Vulkan));
    assert_eq!(HwDecPreference::parse("software"), Some(HwDecPreference::Soft));
    assert_eq!(HwDecPreference::parse("SW"), Some(HwDecPreference::Soft));
    assert_eq!(HwDecPreference::parse("cuda"), None);
    for h in [HwDecPreference::Auto, HwDecPreference::Vaapi, HwDecPreference::Vulkan, HwDecPreference::Soft] {
        assert_eq!(HwDecPreference::parse(h.as_str()), Some(h));
    }
    assert_eq!(HwDecPreference::default(), HwDecPreference::Auto);
}

#[test]
fn wallpaper_kind_from_extension() {
    assert_eq!(WallpaperKind::from_path("/home/a/loop.mp4"), WallpaperKind::Video);
    assert_eq!(WallpaperKind::from_path("/home/a/LOOP.MKV"), WallpaperKind::Video);
    assert_eq!(WallpaperKind::from_path("clip.ts"), WallpaperKind::Video);
    assert_eq!(WallpaperKind::from_path("anim.GIF"), WallpaperKind::AnimatedImage);
    assert_eq!(WallpaperKind::from_path("x/y.webp"), WallpaperKind::AnimatedImage);
    assert_eq!(WallpaperKind::from_path("wall.png"), WallpaperKind::Image);
    assert_eq!(WallpaperKind::from_path("noext"), WallpaperKind::Image);
    assert_eq!(WallpaperKind::from_path(".mp4"), WallpaperKind::Image);
    assert_eq!(WallpaperKind::from_path("dir.mp4/"), WallpaperKind::Video);
    assert_eq!(WallpaperKind::from_path("a.mp4/.."), WallpaperKind::Image);
    assert_eq!(WallpaperKind::from_path("movie.mp4.png"), WallpaperKind::Image);
    assert_eq!(WallpaperKind::Video.as_str(), "video");
    assert_eq!(WallpaperKind::AnimatedImage.as_str(), "animated_image");
    assert_eq!(WallpaperKind::Image.as_str(), "image");
}

#[test]
fn decode_path_names() {
    assert_eq!(DecodePath::Idle.as_str(), "none");
    assert_eq!(DecodePath::Image.as_str(), "image");
    assert_eq!(DecodePath::Soft.as_str(), "soft");
    assert_eq!(DecodePath::VaapiDmabuf.as_str(), "vaapi-dmabuf");
    assert_eq!(DecodePath::VulkanVideo.as_str(), "vulkan-video");
    assert_eq!(DecodePath::default(), DecodePath::Idle);
}

fn chars(s: &str) -> Vec<char> {
    s.chars().collect()
}

#[test]
fn parse_u64_follows_from_str() {
    assert_eq!(parse_u64(&chars("12345")), Some(12345));
    assert_eq!(parse_u64(&chars("+7")), Some(7));
    assert_eq!(parse_u64(&chars("0007")), Some(7));
    assert_eq!(parse_u64(&chars("+")), None);
    assert_eq!(parse_u64(&chars("")), None);
    assert_eq!(parse_u64(&chars("-1")), None);
    assert_eq!(parse_u64(&chars("12a")), None);
    assert_eq!(parse_u64(&chars("18446744073709551615")), Some(u64::MAX));
    assert_eq!(parse_u64(&chars("18446744073709551616")), None);
    for s in ["12345", "+7", "0007", "+", "", "-1", "12a", "18446744073709551616", "99"] {
        assert_eq!(parse_u64(&chars(s)), s.parse::<u64>().ok());
    }
}
