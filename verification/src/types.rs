//! Scale modes, decode preferences and wallpaper kinds, with their textual
//! names.

use vstd::prelude::*;

use crate::text::{
    eq_ignore_case, eq_lit, extension_of, lower_chars, lower_seq, lower_vec, path_extension,
};

verus! {

/// How the wallpaper is scaled onto an output.
#[derive(Debug, Clone, Copy, PartialEq, Eq, Structural)]
pub enum ScaleMode {
    /// Cover the output, cropping as needed.
    Fill,
    /// Fit inside the output, letterboxing if needed.
    Fit,
    /// Stretch to exact output size.
    Stretch,
    /// Center at 1:1 (or nearest), no upscale beyond source if possible.
    Center,
}

/// Preferred hardware decode backend.
#[derive(Debug, Clone, Copy, PartialEq, Eq, Structural)]
pub enum HwDecPreference {
    /// Prefer VA-API, then Vulkan Video, then soft (with warning).
    Auto,
    Vaapi,
    Vulkan,
    /// Software decode only (inefficient; always warned).
    Soft,
}

/// Detected wallpaper media kind.
#[derive(Debug, Clone, Copy, PartialEq, Eq, Structural)]
pub enum WallpaperKind {
    Image,
    AnimatedImage,
    Video,
}

impl Default for ScaleMode {
    fn default() -> (r: Self)
        ensures
            r == ScaleMode::Fill,
    {
        ScaleMode::Fill
    }
}

impl Default for HwDecPreference {
    fn default() -> (r: Self)
        ensures
            r == HwDecPreference::Auto,
    {
        HwDecPreference::Auto
    }
}

/// The scale mode a (case-insensitive) name denotes.
pub open spec fn spec_parse_scale_mode(s: Seq<char>) -> Option<ScaleMode> {
    let l = lower_seq(s);
    if l == "fill"@ || l == "cover"@ {
        Some(ScaleMode::Fill)
    } else if l == "fit"@ || l == "contain"@ {
        Some(ScaleMode::Fit)
    } else if l == "stretch"@ {
        Some(ScaleMode::Stretch)
    } else if l == "center"@ {
        Some(ScaleMode::Center)
    } else {
        None
    }
}

/// The canonical name of a scale mode.
pub open spec fn spec_scale_mode_name(m: ScaleMode) -> Seq<char> {
    match m {
        ScaleMode::Fill => "fill"@,
        ScaleMode::Fit => "fit"@,
        ScaleMode::Stretch => "stretch"@,
        ScaleMode::Center => "center"@,
    }
}

/// The decode preference a (case-insensitive) name denotes.
pub open spec fn spec_parse_hwdec(s: Seq<char>) -> Option<HwDecPreference> {
    let l = lower_seq(s);
    if l == "auto"@ {
        Some(HwDecPreference::Auto)
    } else if l == "vaapi"@ {
        Some(HwDecPreference::Vaapi)
    } else if l == "vulkan"@ || l == "vulkan-video"@ {
        Some(HwDecPreference::Vulkan)
    } else if l == "soft"@ || l == "software"@ || l == "sw"@ {
        Some(HwDecPreference::Soft)
    } else {
        None
    }
}

/// The canonical name of a decode preference.
pub open spec fn spec_hwdec_name(h: HwDecPreference) -> Seq<char> {
    match h {
        HwDecPreference::Auto => "auto"@,
        HwDecPreference::Vaapi => "vaapi"@,
        HwDecPreference::Vulkan => "vulkan"@,
        HwDecPreference::Soft => "soft"@,
    }
}

/// Extensions (lower case) that denote video files.
pub open spec fn is_video_ext(e: Seq<char>) -> bool {
    e == "mp4"@ || e == "mkv"@ || e == "webm"@ || e == "mov"@ || e == "avi"@ || e == "m4v"@
        || e == "ts"@
}

/// Extensions (lower case) that denote possibly animated images.
pub open spec fn is_animated_ext(e: Seq<char>) -> bool {
    e == "gif"@ || e == "webp"@
}

/// The lower-cased extension of a path, empty when it has none.
pub open spec fn lower_extension(p: Seq<char>) -> Seq<char> {
    match path_extension(p) {
        Some(e) => lower_seq(e),
        None => Seq::empty(),
    }
}

/// The media kind a path's extension denotes.
pub open spec fn spec_kind_of(p: Seq<char>) -> WallpaperKind {
    let e = lower_extension(p);
    if is_video_ext(e) {
        WallpaperKind::Video
    } else if is_animated_ext(e) {
        WallpaperKind::AnimatedImage
    } else {
        WallpaperKind::Image
    }
}

/// The canonical name of a media kind.
pub open spec fn spec_kind_name(k: WallpaperKind) -> Seq<char> {
    match k {
        WallpaperKind::Image => "image"@,
        WallpaperKind::AnimatedImage => "animated_image"@,
        WallpaperKind::Video => "video"@,
    }
}

impl ScaleMode {
    pub fn parse(s: &str) -> (r: Option<Self>)
        ensures
            r == spec_parse_scale_mode(s@),
    {
        let l = lower_chars(s);
        if eq_lit(&l, "fill") || eq_lit(&l, "cover") {
            Some(ScaleMode::Fill)
        } else if eq_lit(&l, "fit") || eq_lit(&l, "contain") {
            Some(ScaleMode::Fit)
        } else if eq_lit(&l, "stretch") {
            Some(ScaleMode::Stretch)
        } else if eq_lit(&l, "center") {
            Some(ScaleMode::Center)
        } else {
            None
        }
    }

    pub fn as_str(self) -> (r: &'static str)
        ensures
            r@ == spec_scale_mode_name(self),
    {
        match self {
            ScaleMode::Fill => "fill",
            ScaleMode::Fit => "fit",
            ScaleMode::Stretch => "stretch",
            ScaleMode::Center => "center",
        }
    }
}

impl HwDecPreference {
    pub fn parse(s: &str) -> (r: Option<Self>)
        ensures
            r == spec_parse_hwdec(s@),
    {
        let l = lower_chars(s);
        if eq_lit(&l, "auto") {
            Some(HwDecPreference::Auto)
        } else if eq_lit(&l, "vaapi") {
            Some(HwDecPreference::Vaapi)
        } else if eq_lit(&l, "vulkan") || eq_lit(&l, "vulkan-video") {
            Some(HwDecPreference::Vulkan)
        } else if eq_lit(&l, "soft") || eq_lit(&l, "software") || eq_lit(&l, "sw") {
            Some(HwDecPreference::Soft)
        } else {
            None
        }
    }

    pub fn as_str(self) -> (r: &'static str)
        ensures
            r@ == spec_hwdec_name(self),
    {
        match self {
            HwDecPreference::Auto => "auto",
            HwDecPreference::Vaapi => "vaapi",
            HwDecPreference::Vulkan => "vulkan",
            HwDecPreference::Soft => "soft",
        }
    }
}

impl WallpaperKind {
    /// Classifies a path by its (case-insensitive) extension.
    pub fn from_path(path: &str) -> (r: Self)
        ensures
            r == spec_kind_of(path@),
    {
        let e = match extension_of(path) {
            Some(x) => lower_vec(&x),
            None => Vec::new(),
        };
        assert(e@ == lower_extension(path@));
        if eq_lit(&e, "mp4") || eq_lit(&e, "mkv") || eq_lit(&e, "webm") || eq_lit(&e, "mov")
            || eq_lit(&e, "avi") || eq_lit(&e, "m4v") || eq_lit(&e, "ts") {
            WallpaperKind::Video
        } else if eq_lit(&e, "gif") || eq_lit(&e, "webp") {
            WallpaperKind::AnimatedImage
        } else {
            WallpaperKind::Image
        }
    }

    pub fn as_str(self) -> (r: &'static str)
        ensures
            r@ == spec_kind_name(self),
    {
        match self {
            WallpaperKind::Image => "image",
            WallpaperKind::AnimatedImage => "animated_image",
            WallpaperKind::Video => "video",
        }
    }
}

// ---------------------------------------------------------------------
// Laws

proof fn lemma_lower_fixed(s: Seq<char>)
    requires
        forall|i: int| 0 <= i < s.len() ==> !('A' <= #[trigger] s[i] && s[i] <= 'Z'),
    ensures
        lower_seq(s) == s,
{
    assert(lower_seq(s) =~= s);
}

/// Every scale mode's name parses back to that mode.
pub proof fn scale_mode_name_round_trip(m: ScaleMode)
    ensures
        spec_parse_scale_mode(spec_scale_mode_name(m)) == Some(m),
{
    reveal_strlit("fill");
    reveal_strlit("cover");
    reveal_strlit("fit");
    reveal_strlit("contain");
    reveal_strlit("stretch");
    reveal_strlit("center");
    let n = spec_scale_mode_name(m);
    lemma_lower_fixed(n);
    assert("fill"@.len() == 4 && "cover"@.len() == 5 && "fit"@.len() == 3);
    assert("contain"@.len() == 7 && "stretch"@.len() == 7 && "center"@.len() == 6);
    assert("contain"@[0] != "stretch"@[0]);
}

/// Every decode preference's name parses back to that preference.
pub proof fn hwdec_name_round_trip(h: HwDecPreference)
    ensures
        spec_parse_hwdec(spec_hwdec_name(h)) == Some(h),
{
    reveal_strlit("auto");
    reveal_strlit("vaapi");
    reveal_strlit("vulkan");
    reveal_strlit("vulkan-video");
    reveal_strlit("soft");
    reveal_strlit("software");
    reveal_strlit("sw");
    let n = spec_hwdec_name(h);
    lemma_lower_fixed(n);
    assert("auto"@.len() == 4 && "vaapi"@.len() == 5 && "vulkan"@.len() == 6);
    assert("vulkan-video"@.len() == 12 && "soft"@.len() == 4 && "software"@.len() == 8);
    assert("sw"@.len() == 2 && "auto"@[0] != "soft"@[0]);
}

/// Names are matched without regard to ASCII case.
pub proof fn parse_ignores_case(a: Seq<char>, b: Seq<char>)
    requires
        eq_ignore_case(a, b),
    ensures
        spec_parse_scale_mode(a) == spec_parse_scale_mode(b),
        spec_parse_hwdec(a) == spec_parse_hwdec(b),
{
    assert(lower_seq(a) == lower_seq(b));
}

/// Files are classified by their extension, in any ASCII case: the video
/// formats mp4, mkv, webm, mov, avi, m4v and ts as videos, gif and webp as
/// possibly animated images, anything else (or no extension) as a still
/// image.
pub proof fn kind_follows_extension(p: Seq<char>)
    ensures
        ({
            let e = match path_extension(p) {
                Some(x) => lower_seq(x),
                None => Seq::empty(),
            };
            &&& (e == "mp4"@ || e == "mkv"@ || e == "webm"@ || e == "mov"@ || e == "avi"@ || e == "m4v"@
                || e == "ts"@) ==> spec_kind_of(p) == WallpaperKind::Video
            &&& (e == "gif"@ || e == "webp"@) ==> spec_kind_of(p) == WallpaperKind::AnimatedImage
            &&& !(e == "mp4"@ || e == "mkv"@ || e == "webm"@ || e == "mov"@ || e == "avi"@ || e == "m4v"@
                || e == "ts"@ || e == "gif"@ || e == "webp"@) ==> spec_kind_of(p) == WallpaperKind::Image
        }),
{
    reveal_strlit("mp4");
    reveal_strlit("mkv");
    reveal_strlit("webm");
    reveal_strlit("mov");
    reveal_strlit("avi");
    reveal_strlit("m4v");
    reveal_strlit("ts");
    reveal_strlit("gif");
    reveal_strlit("webp");
    assert("gif"@ != "mp4"@ && "gif"@ != "mkv"@ && "gif"@ != "mov"@ && "gif"@ != "avi"@ && "gif"@ != "m4v"@) by {
        assert("gif"@[0] != "mp4"@[0] && "gif"@[0] != "mkv"@[0] && "gif"@[0] != "mov"@[0]
            && "gif"@[0] != "avi"@[0] && "gif"@[0] != "m4v"@[0]);
    }
    assert("gif"@ != "webm"@ && "gif"@ != "ts"@ && "webp"@ != "ts"@ && "webp"@ != "mp4"@ && "webp"@ != "mkv"@
        && "webp"@ != "mov"@ && "webp"@ != "avi"@ && "webp"@ != "m4v"@) by {
        assert("gif"@.len() == 3 && "webm"@.len() == 4 && "ts"@.len() == 2 && "webp"@.len() == 4
            && "mp4"@.len() == 3);
    }
    assert("webp"@ != "webm"@) by {
        assert("webp"@[3] != "webm"@[3]);
    }
}

} // verus!
