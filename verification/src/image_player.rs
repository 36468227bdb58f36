//! Still and animated images (GIF, WebP) decoded into frames, played back
//! in a loop.

use std::io::Cursor;
use image::AnimationDecoder;
use vstd::prelude::*;

use crate::frame::{xrgb_of_rgba, Frame};
use crate::text::{eq_lit, extension_of, lower_char, lower_vec, path_extension, lower_seq, string_of_chars};

verus! {

/// A decoded animation frame: RGBA8 pixels and the frame's delay as a
/// ratio of milliseconds.
#[derive(Debug)]
pub struct DecodedFrame {
    pub width: u32,
    pub height: u32,
    pub rgba: Vec<u8>,
    pub delay_numer: u32,
    pub delay_denom: u32,
}

impl View for DecodedFrame {
    type V = (u32, u32, Seq<u8>, u32, u32);

    open spec fn view(&self) -> (u32, u32, Seq<u8>, u32, u32) {
        (self.width, self.height, self.rgba@, self.delay_numer, self.delay_denom)
    }
}

/// The frames the `image` crate's GIF decoder yields for `data`, or none
/// when it fails.
pub uninterp spec fn gif_frames(data: Seq<u8>) -> Option<Seq<(u32, u32, Seq<u8>, u32, u32)>>;

/// Whether the `image` crate's GIF decoder opens `data` (reads its header).
pub uninterp spec fn gif_opens(data: Seq<u8>) -> bool;

/// Whether the `image` crate's WebP decoder accepts `data`, and if so
/// whether it is animated.
pub uninterp spec fn webp_animated(data: Seq<u8>) -> Option<bool>;

/// The frames the `image` crate's WebP decoder yields for `data`, or none
/// when it fails.
pub uninterp spec fn webp_frames(data: Seq<u8>) -> Option<Seq<(u32, u32, Seq<u8>, u32, u32)>>;

/// The RGBA8 image the `image` crate decodes from `data` in the format the
/// file extension `ext` names, or none when it fails.
pub uninterp spec fn still_rgba(data: Seq<u8>, ext: Seq<char>) -> Option<(u32, u32, Seq<u8>)>;

/// `GifDecoder::new` on the bytes, then `into_frames`, each frame's delay
/// (`Delay::numer_denom_ms`, whose denominator is never 0) and RGBA8 buffer.
/// On failure, `Err(true)` when the decoder opened but a frame failed, and
/// `Err(false)` when it did not open.
#[verifier::external_body]
fn decode_gif(data: &[u8]) -> (r: Result<Vec<DecodedFrame>, bool>)
    ensures
        match r {
            Ok(v) => gif_opens(data@) && gif_frames(data@) == Some(v@.map_values(|f: DecodedFrame| f@))
                && forall|i: int| 0 <= i < v@.len() ==> #[trigger] v@[i].delay_denom >= 1,
            Err(opened) => gif_frames(data@) is None && opened == gif_opens(data@),
        },
{
    let dec = image::codecs::gif::GifDecoder::new(Cursor::new(data)).map_err(|_| false)?;
    let mut out = Vec::new();
    for f in dec.into_frames() {
        let f = f.map_err(|_| true)?;
        let (n, d) = f.delay().numer_denom_ms();
        let b = f.into_buffer();
        out.push(DecodedFrame { width: b.width(), height: b.height(), rgba: b.into_raw(), delay_numer: n, delay_denom: d });
    }
    Ok(out)
}

/// `WebPDecoder::new` on the bytes, then `has_animation`.
#[verifier::external_body]
fn webp_animation(data: &[u8]) -> (r: Option<bool>)
    ensures
        r == webp_animated(data@),
{
    match image::codecs::webp::WebPDecoder::new(Cursor::new(data)) {
        Ok(d) => Some(d.has_animation()),
        Err(_) => None,
    }
}

/// `WebPDecoder::new` on the bytes, then `into_frames`, as for GIF; the
/// decoder's error text is handed back when it does not open, which is
/// when `WebPDecoder::new` on the same bytes fails in `webp_animation` too.
#[verifier::external_body]
fn decode_webp(data: &[u8]) -> (r: Result<Vec<DecodedFrame>, Option<String>>)
    ensures
        match r {
            Ok(v) => webp_frames(data@) == Some(v@.map_values(|f: DecodedFrame| f@)) && forall|i: int|
                0 <= i < v@.len() ==> #[trigger] v@[i].delay_denom >= 1,
            Err(why) => webp_frames(data@) is None && (why is Some <==> webp_animated(data@) is None),
        },
{
    let dec = image::codecs::webp::WebPDecoder::new(Cursor::new(data)).map_err(|e| Some(e.to_string()))?;
    let mut out = Vec::new();
    for f in dec.into_frames() {
        let f = f.map_err(|_| None)?;
        let (n, d) = f.delay().numer_denom_ms();
        let b = f.into_buffer();
        out.push(DecodedFrame { width: b.width(), height: b.height(), rgba: b.into_raw(), delay_numer: n, delay_denom: d });
    }
    Ok(out)
}

/// `ImageFormat::from_extension(ext)`, then `ImageReader::with_format` over
/// the bytes, `decode` and `to_rgba8`.
#[verifier::external_body]
fn decode_still(data: &[u8], ext: &str) -> (r: Option<(u32, u32, Vec<u8>)>)
    ensures
        match r {
            Some((w, h, px)) => still_rgba(data@, ext@) == Some((w, h, px@)),
            None => still_rgba(data@, ext@) is None,
        },
{
    let fmt = image::ImageFormat::from_extension(ext)?;
    let img = image::ImageReader::with_format(Cursor::new(data), fmt).decode().ok()?.to_rgba8();
    Some((img.width(), img.height(), img.into_raw()))
}

/// Default delay of a frame that states none: 100 ms.
pub const DEFAULT_DELAY_NS: u64 = 100_000_000;

/// `Duration::from(Delay)` in nanoseconds: whole milliseconds, plus the
/// remainder scaled to nanoseconds (rounded down).
pub open spec fn spec_delay_ns(numer: u32, denom: u32) -> int {
    (numer / denom) as int * 1_000_000 + ((numer % denom) as int * 1_000_000) / denom as int
}

pub fn delay_ns(numer: u32, denom: u32) -> (r: u64)
    requires
        denom >= 1,
    ensures
        r == spec_delay_ns(numer, denom),
{
    let ms: u64 = (numer / denom) as u64;
    let rest: u64 = (numer % denom) as u64;
    assert(rest < denom);
    assert(rest * 1_000_000 <= u32::MAX as int * 1_000_000) by (nonlinear_arith)
        requires
            rest <= u32::MAX,
    ;
    assert(ms * 1_000_000 <= u32::MAX as int * 1_000_000) by (nonlinear_arith)
        requires
            ms <= u32::MAX,
    ;
    let sub: u64 = (rest * 1_000_000) / (denom as u64);
    assert(sub <= rest * 1_000_000) by (nonlinear_arith)
        requires
            sub == (rest * 1_000_000) / (denom as int),
            denom >= 1,
    ;
    ms * 1_000_000 + sub
}

/// Plays a still image once, or the frames of an animation in a loop.
#[derive(Debug)]
pub struct ImagePlayer<Fd> {
    pub static_frame: Option<Frame<Fd>>,
    /// Frames with their delays in nanoseconds.
    pub frames: Vec<(Frame<Fd>, u64)>,
    pub index: usize,
    pub last_delay_ns: u64,
}

fn copy_bytes(v: &Vec<u8>) -> (r: Vec<u8>)
    ensures
        r@ == v@,
{
    let mut r: Vec<u8> = Vec::new();
    let mut i: usize = 0;
    while i < v.len()
        invariant
            i <= v@.len(),
            r@ == v@.take(i as int),
        decreases v@.len() - i,
    {
        r.push(v[i]);
        i = i + 1;
        assert(r@ =~= v@.take(i as int));
    }
    assert(v@.take(i as int) =~= v@);
    r
}

/// Whether a decoded image fits a frame: its XRGB buffer size fits in 32
/// bits and it has all its pixels.
pub open spec fn fits_frame(w: u32, h: u32, px: Seq<u8>) -> bool {
    4 * w * h <= u32::MAX && w <= u32::MAX / 4 && px.len() >= 4 * w * h
}

fn check_fits(w: u32, h: u32, px: &Vec<u8>) -> (r: bool)
    ensures
        r == fits_frame(w, h, px@),
{
    if w > u32::MAX / 4 {
        return false;
    }
    let w4: u64 = (w as u64) * 4;
    if h > 0 && w4 > (u32::MAX as u64) / (h as u64) {
        assert(4 * w * h > u32::MAX) by (nonlinear_arith)
            requires
                h > 0,
                w4 == 4 * w,
                w4 > (u32::MAX as int) / (h as int),
        ;
        return false;
    }
    assert(4 * w * h <= u32::MAX) by (nonlinear_arith)
        requires
            w4 == 4 * w,
            h == 0 || w4 <= (u32::MAX as int) / (h as int),
    ;
    let need: u64 = w4 * (h as u64);
    assert(need == 4 * w * h) by (nonlinear_arith)
        requires
            need == w4 * h,
            w4 == 4 * w,
    ;
    (px.len() as u64) >= need
}

/// The frame and delay an animation frame becomes.
pub open spec fn frame_of<Fd>(f: Frame<Fd>, d: (u32, u32, Seq<u8>, u32, u32)) -> bool {
    &&& f matches Frame::Shm { width, height, stride, pixels } && width == d.0 && height == d.1
        && stride == 4 * d.0 && pixels@ == xrgb_of_rgba(d.2, (d.0 * d.1) as nat)
}

/// The delay an animation frame is shown for: its own, or 100 ms when it
/// states none.
pub open spec fn shown_delay(d: (u32, u32, Seq<u8>, u32, u32)) -> int {
    if spec_delay_ns(d.3, d.4) == 0 {
        DEFAULT_DELAY_NS as int
    } else {
        spec_delay_ns(d.3, d.4)
    }
}

impl<Fd> ImagePlayer<Fd> {
    /// A player over animation frames; refused when there are none or a
    /// frame is too large.
    pub fn from_animation(frames: Vec<DecodedFrame>) -> (r: Result<Self, String>)
        requires
            forall|i: int| 0 <= i < frames@.len() ==> #[trigger] frames@[i].delay_denom >= 1,
        ensures
            plays_animation(r, frames@.map_values(|f: DecodedFrame| f@)),
    {
        let mut out: Vec<(Frame<Fd>, u64)> = Vec::new();
        let mut i: usize = 0;
        while i < frames.len()
            invariant
                i <= frames@.len(),
                out@.len() == i,
                forall|j: int| 0 <= j < frames@.len() ==> #[trigger] frames@[j].delay_denom >= 1,
                forall|j: int| 0 <= j < i ==> fits_frame(#[trigger] frames@[j].width, frames@[j].height, frames@[j].rgba@),
                forall|j: int| 0 <= j < i ==> frame_of(#[trigger] out@[j].0, frames@[j]@) && out@[j].1 == shown_delay(frames@[j]@),
            decreases frames@.len() - i,
        {
            let f = &frames[i];
            if !check_fits(f.width, f.height, &f.rgba) {
                let ghost fs = frames@.map_values(|f: DecodedFrame| f@);
                assert(fs[i as int] == frames@[i as int]@);
                assert(!fits_frame(fs[i as int].0, fs[i as int].1, fs[i as int].2));
                return Err(String::from_str("animation frame"));
            }
            let fr = Frame::from_rgba8(f.width, f.height, f.rgba.as_slice());
            let d = delay_ns(f.delay_numer, f.delay_denom);
            let d = if d == 0 {
                DEFAULT_DELAY_NS
            } else {
                d
            };
            out.push((fr, d));
            i = i + 1;
        }
        if out.len() == 0 {
            return Err(String::from_str("animation contained no frames"));
        }
        Ok(ImagePlayer { static_frame: None, frames: out, index: 0, last_delay_ns: DEFAULT_DELAY_NS })
    }

    /// The next frame: a still image once, then nothing; animation frames
    /// in order, then nothing until `reset`.
    pub fn next_frame(&mut self) -> (r: Result<Option<Frame<Fd>>, String>)
        ensures
            yields_next(*old(self), r),
            *final(self) == after_next(*old(self)),
    {
        if self.static_frame.is_some() {
            let f = self.static_frame.take();
            return Ok(f);
        }
        if self.frames.len() == 0 || self.index >= self.frames.len() {
            return Ok(None);
        }
        let i = self.index;
        self.last_delay_ns = self.frames[i].1;
        self.index = i + 1;
        match &self.frames[i].0 {
            Frame::Shm { width, height, stride, pixels } => Ok(Some(Frame::Shm { width: *width, height: *height, stride: *stride, pixels: copy_bytes(pixels) })),
            Frame::Dmabuf(_) => Err(String::from_str("unexpected dmabuf in image player")),
        }
    }

    /// Starts the animation over.
    pub fn reset(&mut self)
        ensures
            *final(self) == (ImagePlayer { index: 0, ..*old(self) }),
    {
        self.index = 0;
    }

    /// How long the last frame handed out is to be shown, in nanoseconds.
    pub fn last_delay(&self) -> (r: u64)
        ensures
            r == self.last_delay_ns,
    {
        self.last_delay_ns
    }

    /// Opens the image at `path` from its bytes: GIF files, and WebP files
    /// that are animated, play as animations; anything else is decoded as a
    /// still image in the format its extension names.
    pub fn open(path: &str, data: &[u8]) -> (r: Result<Self, String>)
        ensures
            ({
                let le = lower_extension_of(path@);
                if le == "gif"@ {
                    match gif_frames(data@) {
                        None => r matches Err(e) && e@ == (if gif_opens(data@) {
                            "animation frame"@
                        } else {
                            "gif decoder"@
                        }),
                        Some(fs) => plays_animation(r, fs),
                    }
                } else if le == "webp"@ && webp_animated(data@) == Some(true) {
                    match webp_frames(data@) {
                        None => r matches Err(e) && e@ == "animation frame"@,
                        Some(fs) => plays_animation(r, fs),
                    }
                } else {
                    let ext = match path_extension(path@) {
                        Some(e) => e,
                        None => Seq::empty(),
                    };
                    opens_still(r, path@, still_rgba(data@, ext))
                }
            }),
            r matches Ok(p) ==> p.index == 0,
    {
        let ext = extension_of(path);
        let le = match &ext {
            Some(x) => lower_vec(x),
            None => Vec::new(),
        };
        if eq_lit(&le, "gif") {
            return match decode_gif(data) {
                Ok(frames) => Self::from_animation(frames),
                Err(true) => Err(String::from_str("animation frame")),
                Err(false) => Err(String::from_str("gif decoder")),
            };
        }
        if eq_lit(&le, "webp") {
            if webp_animation(data) == Some(true) {
                return match decode_webp(data) {
                    Ok(frames) => Self::from_animation(frames),
                    Err(Some(msg)) => Err(msg),
                    Err(None) => Err(String::from_str("animation frame")),
                };
            }
        }
        let ext_text = match &ext {
            Some(x) => string_of_chars(x),
            None => String::new(),
        };
        let decoded = decode_still(data, ext_text.as_str());
        Self::from_still(path, decoded)
    }

    /// A player showing the still image decoded from the file at `path`:
    /// refused when it could not be decoded or is too large for a frame.
    pub fn from_still(path: &str, decoded: Option<(u32, u32, Vec<u8>)>) -> (r: Result<Self, String>)
        ensures
            opens_still(
                r,
                path@,
                match decoded {
                    Some((w, h, px)) => Some((w, h, px@)),
                    None => None,
                },
            ),
    {
        match decoded {
            None => {
                let mut m = String::from_str("opening image ");
                m.append(path);
                Err(m)
            },
            Some((w, h, px)) => {
                if !check_fits(w, h, &px) {
                    return Err(String::from_str("image too large"));
                }
                let f = Frame::from_rgba8(w, h, px.as_slice());
                Ok(ImagePlayer { static_frame: Some(f), frames: Vec::new(), index: 0, last_delay_ns: DEFAULT_DELAY_NS })
            },
        }
    }
}

/// `r` hands out a copy of frame `f`; an image player holds SHM frames
/// only, and refuses a DMA-BUF one.
pub open spec fn hands_out<Fd>(f: Frame<Fd>, r: Result<Option<Frame<Fd>>, String>) -> bool {
    match f {
        Frame::Shm { width, height, stride, pixels } => r matches Ok(Some(Frame::Shm { width: w, height: h, stride: s, pixels: p }))
            && w == width && h == height && s == stride && p@ == pixels@,
        Frame::Dmabuf(_) => r matches Err(e) && e@ == "unexpected dmabuf in image player"@,
    }
}

/// What a `next_frame` call on `p` returns: the still image, else the
/// frame at the index, else nothing.
pub open spec fn yields_next<Fd>(p: ImagePlayer<Fd>, r: Result<Option<Frame<Fd>>, String>) -> bool {
    if p.static_frame is Some {
        r == Ok::<Option<Frame<Fd>>, String>(p.static_frame)
    } else if p.index < p.frames.len() {
        hands_out(p.frames@[p.index as int].0, r)
    } else {
        r == Ok::<Option<Frame<Fd>>, String>(None)
    }
}

/// The player after a `next_frame` call on `p`.
pub open spec fn after_next<Fd>(p: ImagePlayer<Fd>) -> ImagePlayer<Fd> {
    if p.static_frame is Some {
        ImagePlayer { static_frame: None, ..p }
    } else if p.index < p.frames.len() {
        ImagePlayer { index: (p.index + 1) as usize, last_delay_ns: p.frames@[p.index as int].1, ..p }
    } else {
        p
    }
}

/// The player after `n` successive `next_frame` calls on `p`.
pub open spec fn after_calls<Fd>(p: ImagePlayer<Fd>, n: nat) -> ImagePlayer<Fd>
    decreases n,
{
    if n == 0 {
        p
    } else {
        after_next(after_calls(p, (n - 1) as nat))
    }
}

proof fn lemma_after_calls<Fd>(p: ImagePlayer<Fd>, n: nat)
    requires
        p.static_frame is None,
        p.index == 0,
    ensures
        after_calls(p, n).static_frame is None,
        after_calls(p, n).frames == p.frames,
        after_calls(p, n).index == (if n <= p.frames.len() { n } else { p.frames.len() as nat }),
        n > 0 && p.frames.len() > 0 ==> after_calls(p, n).last_delay_ns == p.frames@[(if n <= p.frames.len() { n } else { p.frames.len() as nat }) - 1].1,
        n == 0 || p.frames.len() == 0 ==> after_calls(p, n).last_delay_ns == p.last_delay_ns,
    decreases n,
{
    if n > 0 {
        lemma_after_calls(p, (n - 1) as nat);
    }
}

/// An animation plays in order, once: from a player at its first frame
/// (as `open` and `reset` leave it), the call after `k` calls hands out a
/// copy of frame `k`, and the delay then reported is that frame's; once
/// every frame was handed out, each further call returns nothing and
/// changes nothing.
pub proof fn animation_plays_in_order<Fd>(p: ImagePlayer<Fd>, k: nat, r: Result<Option<Frame<Fd>>, String>)
    requires
        p.static_frame is None,
        p.index == 0,
    ensures
        k < p.frames@.len() ==> yields_next(after_calls(p, k), r) == hands_out(p.frames@[k as int].0, r)
            && after_calls(p, k + 1).last_delay_ns == p.frames@[k as int].1,
        k >= p.frames@.len() ==> yields_next(after_calls(p, k), r) == (r == Ok::<Option<Frame<Fd>>, String>(None))
            && after_calls(p, k + 1) == after_calls(p, k),
{
    lemma_after_calls(p, k);
    lemma_after_calls(p, k + 1);
}

/// `r` is the outcome of showing the still image `decoded` (width, height,
/// RGBA8 pixels) from the file at `path`, or of failing to decode it.
pub open spec fn opens_still<Fd>(r: Result<ImagePlayer<Fd>, String>, path: Seq<char>, decoded: Option<(u32, u32, Seq<u8>)>) -> bool {
    match decoded {
        None => r matches Err(e) && e@ == "opening image "@ + path,
        Some((w, h, px)) => if fits_frame(w, h, px) {
            r matches Ok(p) && p.frames@.len() == 0 && p.index == 0 && p.last_delay_ns == DEFAULT_DELAY_NS
                && (p.static_frame matches Some(Frame::Shm { width, height, stride, pixels }) && width == w
                && height == h && stride == 4 * w && pixels@ == xrgb_of_rgba(px, (w * h) as nat))
        } else {
            r matches Err(e) && e@ == "image too large"@
        },
    }
}

/// `r` is the outcome of playing the decoded frames `fs` as an animation.
pub open spec fn plays_animation<Fd>(r: Result<ImagePlayer<Fd>, String>, fs: Seq<(u32, u32, Seq<u8>, u32, u32)>) -> bool {
    &&& fs.len() == 0 ==> (r matches Err(e) && e@ == "animation contained no frames"@)
    &&& (exists|i: int| 0 <= i < fs.len() && !fits_frame(#[trigger] fs[i].0, fs[i].1, fs[i].2))
        ==> (r matches Err(e) && e@ == "animation frame"@)
    &&& (fs.len() > 0 && forall|i: int| 0 <= i < fs.len() ==> fits_frame(#[trigger] fs[i].0, fs[i].1, fs[i].2)) ==> r is Ok
    &&& r matches Ok(p) ==> p.static_frame is None && p.index == 0 && p.last_delay_ns
        == DEFAULT_DELAY_NS && p.frames@.len() == fs.len() && forall|i: int|
        0 <= i < fs.len() ==> frame_of(#[trigger] p.frames@[i].0, fs[i]) && p.frames@[i].1
            == shown_delay(fs[i])
}

/// The lower-cased extension of a path, empty when it has none.
pub open spec fn lower_extension_of(p: Seq<char>) -> Seq<char> {
    match path_extension(p) {
        Some(e) => lower_seq(e),
        None => Seq::empty(),
    }
}

/// Extensions are matched whatever their ASCII case: `open` plays a path
/// whose extension is `gif` in any case (say `ANIM.GIF`) as a GIF
/// animation, and `webp` likewise.
pub proof fn extension_case_ignored(p: Seq<char>, e: Seq<char>)
    requires
        path_extension(p) == Some(e),
    ensures
        lower_extension_of(p) == lower_seq(e),
        e.len() == 3 && (e[0] == 'g' || e[0] == 'G') && (e[1] == 'i' || e[1] == 'I') && (e[2] == 'f' || e[2]
            == 'F') ==> lower_extension_of(p) == "gif"@,
        e.len() == 4 && (e[0] == 'w' || e[0] == 'W') && (e[1] == 'e' || e[1] == 'E') && (e[2] == 'b' || e[2]
            == 'B') && (e[3] == 'p' || e[3] == 'P') ==> lower_extension_of(p) == "webp"@,
{
    reveal_strlit("gif");
    reveal_strlit("webp");
    if e.len() == 3 {
        assert(lower_seq(e) =~= seq![lower_char(e[0]), lower_char(e[1]), lower_char(e[2])]);
    }
    if e.len() == 4 {
        assert(lower_seq(e) =~= seq![lower_char(e[0]), lower_char(e[1]), lower_char(e[2]), lower_char(e[3])]);
    }
}

} // verus!
