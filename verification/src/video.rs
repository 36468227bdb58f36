//! Video decode policy: which backend is asked for, how far frames are
//! scaled down, which decode path results and what the user is warned of,
//! and how the native decoder's answers are read.

use vstd::prelude::*;

use crate::decimal::{dec_signed, push_decimal_i64};
use crate::frame::DecodePath;
use crate::text::string_of_chars;
use crate::types::HwDecPreference;

verus! {

/// How a video player is to decode.
#[derive(Debug, Clone, Copy)]
pub struct VideoPlayerConfig {
    pub hwdec: HwDecPreference,
    pub efficiency_mode: bool,
    pub max_fps: u32,
    /// Scale decoded frames down to this size (0 = native).
    pub target_w: u32,
    pub target_h: u32,
}

/// What is asked of the native decoder.
#[derive(Debug, Clone, Copy)]
pub struct DecodeRequest {
    pub want_hw: bool,
    /// A decode path fixed by the preference, whatever the decoder does.
    pub forced: Option<DecodePath>,
}

/// Software decoding was asked for while efficiency mode forbids it.
pub open spec fn forbids_soft(cfg: VideoPlayerConfig) -> bool {
    cfg.hwdec == HwDecPreference::Soft && cfg.efficiency_mode
}

/// The request for a preference: software decoding for `Soft`, hardware
/// decoding (VA-API, also standing in for Vulkan Video) otherwise. Refused
/// when efficiency mode forbids software decoding.
pub fn decode_request(cfg: &VideoPlayerConfig) -> (r: Result<DecodeRequest, String>)
    ensures
        forbids_soft(*cfg) ==> (r matches Err(m) && m@ == "efficiency_mode forbids software decode"@),
        !forbids_soft(*cfg) ==> (r matches Ok(q) && q.want_hw == (cfg.hwdec != HwDecPreference::Soft)
            && q.forced == (if cfg.hwdec == HwDecPreference::Soft {
            Some(DecodePath::Soft)
        } else {
            None
        })),
{
    let q = match cfg.hwdec {
        HwDecPreference::Soft => DecodeRequest { want_hw: false, forced: Some(DecodePath::Soft) },
        _ => DecodeRequest { want_hw: true, forced: None },
    };
    if cfg.hwdec == HwDecPreference::Soft && cfg.efficiency_mode {
        return Err(String::from_str("efficiency_mode forbids software decode"));
    }
    Ok(q)
}

/// The size frames are scaled down to, if any: only when a target is set,
/// never above the source (taken as at least 1), and only when smaller than
/// the source in some dimension.
pub open spec fn spec_decode_target(cfg: VideoPlayerConfig, src_w: u32, src_h: u32) -> Option<(u32, u32)> {
    if cfg.target_w > 0 && cfg.target_h > 0 {
        let sw = if src_w > 1 { src_w } else { 1 };
        let sh = if src_h > 1 { src_h } else { 1 };
        let tw = if cfg.target_w < sw { cfg.target_w } else { sw };
        let th = if cfg.target_h < sh { cfg.target_h } else { sh };
        if tw < src_w || th < src_h {
            Some((tw, th))
        } else {
            None
        }
    } else {
        None
    }
}

pub fn decode_target(cfg: &VideoPlayerConfig, src_w: u32, src_h: u32) -> (r: Option<(u32, u32)>)
    ensures
        r == spec_decode_target(*cfg, src_w, src_h),
{
    if cfg.target_w > 0 && cfg.target_h > 0 {
        let sw = if src_w > 1 { src_w } else { 1 };
        let sh = if src_h > 1 { src_h } else { 1 };
        let tw = if cfg.target_w < sw { cfg.target_w } else { sw };
        let th = if cfg.target_h < sh { cfg.target_h } else { sh };
        if tw < src_w || th < src_h {
            Some((tw, th))
        } else {
            None
        }
    } else {
        None
    }
}

/// Never scales up: a chosen target is no larger than a source of known
/// size.
pub proof fn decode_target_only_downscales(cfg: VideoPlayerConfig, src_w: u32, src_h: u32)
    requires
        src_w >= 1,
        src_h >= 1,
    ensures
        spec_decode_target(cfg, src_w, src_h) matches Some((tw, th)) ==> tw <= src_w && th
            <= src_h && tw >= 1 && th >= 1 && (tw < src_w || th < src_h),
{
}

pub open spec fn vulkan_warning() -> Seq<char> {
    "Vulkan Video decode not yet wired; using VA-API DMA-BUF"@
}

pub open spec fn hybrid_warning() -> Seq<char> {
    "hybrid GPU: VA-API decode, SHM present (works on HDMI/dGPU)"@
}

pub open spec fn soft_warning() -> Seq<char> {
    "using software decode (higher CPU/RAM)"@
}

pub open spec fn no_hw_message() -> Seq<char> {
    "efficiency_mode requires VA-API; hardware decode unavailable"@
}

/// The text of an optional string.
pub open spec fn opt_chars(o: Option<String>) -> Option<Seq<char>> {
    match o {
        Some(s) => Some(s@),
        None => None,
    }
}

/// The decode path that results once the decoder is open, and the warning
/// shown with it (the decoder's own warning wins over the fallbacks).
/// Refused when efficiency mode requires hardware decoding that the decoder
/// could not provide.
pub open spec fn spec_decode_outcome(
    cfg: VideoPlayerConfig,
    forced: Option<DecodePath>,
    is_hw: bool,
    force_rgb: bool,
    warning: Option<Seq<char>>,
) -> Result<(DecodePath, Option<Seq<char>>), Seq<char>> {
    let (path_res, w1) = if forced is Some {
        (Ok(forced->0), warning)
    } else if is_hw && force_rgb {
        (Ok(DecodePath::VaapiDmabuf), warning)
    } else if is_hw {
        (Ok(DecodePath::VaapiDmabuf), if cfg.hwdec == HwDecPreference::Vulkan && warning is None {
            Some(vulkan_warning())
        } else {
            warning
        })
    } else if cfg.efficiency_mode {
        (Err(no_hw_message()), warning)
    } else {
        (Ok(DecodePath::Soft), warning)
    };
    match path_res {
        Err(m) => Err(m),
        Ok(p) => {
            let w2 = if is_hw && force_rgb {
                if w1 is None {
                    Some(hybrid_warning())
                } else {
                    w1
                }
            } else if p == DecodePath::Soft && w1 is None {
                Some(soft_warning())
            } else {
                w1
            };
            Ok((p, w2))
        },
    }
}

pub fn decode_outcome(
    cfg: &VideoPlayerConfig,
    forced: Option<DecodePath>,
    is_hw: bool,
    force_rgb: bool,
    warning: Option<String>,
) -> (r: Result<(DecodePath, Option<String>), String>)
    ensures
        match spec_decode_outcome(*cfg, forced, is_hw, force_rgb, opt_chars(warning)) {
            Ok((p, w)) => r matches Ok((p2, w2)) && p2 == p && opt_chars(w2) == w,
            Err(m) => r matches Err(m2) && m2@ == m,
        },
{
    let mut warning = warning;
    let path = match forced {
        Some(p) => p,
        None => {
            if is_hw && force_rgb {
                DecodePath::VaapiDmabuf
            } else if is_hw {
                if cfg.hwdec == HwDecPreference::Vulkan && warning.is_none() {
                    warning = Some(String::from_str("Vulkan Video decode not yet wired; using VA-API DMA-BUF"));
                }
                DecodePath::VaapiDmabuf
            } else {
                if cfg.efficiency_mode {
                    return Err(String::from_str("efficiency_mode requires VA-API; hardware decode unavailable"));
                }
                DecodePath::Soft
            }
        },
    };
    if is_hw && force_rgb {
        if warning.is_none() {
            warning = Some(String::from_str("hybrid GPU: VA-API decode, SHM present (works on HDMI/dGPU)"));
        }
    } else if path == DecodePath::Soft && warning.is_none() {
        warning = Some(String::from_str("using software decode (higher CPU/RAM)"));
    }
    Ok((path, warning))
}

/// What the native decoder's return code means.
#[derive(Debug, Clone, Copy, PartialEq, Eq, Structural)]
pub enum DecoderStep {
    /// End of stream.
    Finished,
    /// A packed XRGB frame is ready.
    Rgb,
    /// A DMA-BUF frame is ready.
    Dmabuf,
}

/// Reads the native decoder's return code: 0 ends the stream, 1 and 2 hand
/// out a frame, -1 and anything else are errors.
pub fn decoder_step(code: i32) -> (r: Result<DecoderStep, String>)
    ensures
        code == 0 ==> r == Ok::<DecoderStep, String>(DecoderStep::Finished),
        code == 1 ==> r == Ok::<DecoderStep, String>(DecoderStep::Rgb),
        code == 2 ==> r == Ok::<DecoderStep, String>(DecoderStep::Dmabuf),
        code == -1 ==> (r matches Err(m) && m@ == "decode error"@),
        !(code == 0 || code == 1 || code == 2 || code == -1) ==> (r matches Err(m) && m@
            == "unexpected decoder code "@ + dec_signed(code as int)),
{
    if code == 0 {
        Ok(DecoderStep::Finished)
    } else if code == 1 {
        Ok(DecoderStep::Rgb)
    } else if code == 2 {
        Ok(DecoderStep::Dmabuf)
    } else if code == -1 {
        Err(String::from_str("decode error"))
    } else {
        let mut digits: Vec<char> = Vec::new();
        push_decimal_i64(&mut digits, code as i64);
        let mut m = String::from_str("unexpected decoder code ");
        m.append(string_of_chars(&digits).as_str());
        Err(m)
    }
}

/// The error for a failed seek to the start.
pub fn seek_error(ret: i32) -> (m: String)
    ensures
        m@ == "seek failed ("@ + dec_signed(ret as int) + ")"@,
{
    let mut digits: Vec<char> = Vec::new();
    push_decimal_i64(&mut digits, ret as i64);
    let mut m = String::from_str("seek failed (");
    m.append(string_of_chars(&digits).as_str());
    m.append(")");
    m
}

/// Indices of the DMA-BUF planes to take over: those among the first
/// `nb_planes` that carry a descriptor.
pub fn dmabuf_plane_indices(nb_planes: i32, fds: &[i32]) -> (r: Vec<usize>)
    requires
        0 <= nb_planes <= fds@.len(),
    ensures
        forall|k: int| 0 <= k < r@.len() ==> #[trigger] r@[k] < nb_planes && fds@[r@[k] as int] >= 0,
        forall|k1: int, k2: int| 0 <= k1 < k2 < r@.len() ==> r@[k1] < r@[k2],
        forall|i: int| 0 <= i < nb_planes && fds@[i] >= 0 ==> r@.contains(i as usize),
{
    let n = nb_planes as usize;
    let mut r: Vec<usize> = Vec::new();
    let mut i: usize = 0;
    while i < n
        invariant
            i <= n,
            n == nb_planes,
            n <= fds@.len(),
            forall|k: int| 0 <= k < r@.len() ==> #[trigger] r@[k] < i && fds@[r@[k] as int] >= 0,
            forall|k1: int, k2: int| 0 <= k1 < k2 < r@.len() ==> r@[k1] < r@[k2],
            forall|j: int| 0 <= j < i && fds@[j] >= 0 ==> r@.contains(j as usize),
        decreases n - i,
    {
        if fds[i] >= 0 {
            let ghost before = r@;
            r.push(i);
            assert forall|j: int| 0 <= j < i && fds@[j] >= 0 implies r@.contains(j as usize) by {
                let k = choose|k: int| 0 <= k < before.len() && before[k] == j as usize;
                assert(r@[k] == j as usize);
            }
            assert(r@[r@.len() - 1] == i);
        }
        i = i + 1;
    }
    r
}

/// The two 32-bit halves of a DRM format modifier, high half first.
pub fn modifier_halves(modifier: u64) -> (r: (u32, u32))
    ensures
        r.0 == modifier >> 32u64,
        r.1 == modifier & 0xffff_ffffu64,
        r.0 as int * 0x1_0000_0000 + r.1 as int == modifier as int,
{
    let hi: u32 = (modifier >> 32u64) as u32;
    let lo: u32 = (modifier & 0xffff_ffffu64) as u32;
    assert((modifier >> 32u64) <= u32::MAX && (modifier & 0xffff_ffffu64) <= u32::MAX
        && (modifier >> 32u64) * 0x1_0000_0000 + (modifier & 0xffff_ffffu64) == modifier) by (bit_vector);
    (hi, lo)
}

/// Without a forced path, a decoder that is not hardware means software
/// decoding, however frames are presented: refused under efficiency mode,
/// otherwise soft (warned about unless a warning came already). VA-API is
/// reported only for a hardware decoder.
pub proof fn software_decode_outcome(cfg: VideoPlayerConfig, is_hw: bool, force_rgb: bool, warning: Option<Seq<char>>)
    ensures
        !is_hw ==> spec_decode_outcome(cfg, None, is_hw, force_rgb, warning) == (if cfg.efficiency_mode {
            Err::<(DecodePath, Option<Seq<char>>), Seq<char>>(
                "efficiency_mode requires VA-API; hardware decode unavailable"@,
            )
        } else {
            Ok((
                DecodePath::Soft,
                match warning {
                    Some(w) => Some(w),
                    None => Some("using software decode (higher CPU/RAM)"@),
                },
            ))
        }),
        (spec_decode_outcome(cfg, None, is_hw, force_rgb, warning) matches Ok((p, _))
            && p == DecodePath::VaapiDmabuf) ==> is_hw,
{
}

} // verus!
