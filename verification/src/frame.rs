//! Decoded frames and the decode path reported in status.

use vstd::prelude::*;

verus! {

/// Active decode backend reported in status.
#[derive(Debug, Clone, Copy, PartialEq, Eq, Structural)]
pub enum DecodePath {
    Idle,
    Image,
    Soft,
    VaapiDmabuf,
    VulkanVideo,
}

impl Default for DecodePath {
    fn default() -> (r: Self)
        ensures
            r == DecodePath::Idle,
    {
        DecodePath::Idle
    }
}

/// The status name of a decode path.
pub open spec fn spec_decode_path_name(p: DecodePath) -> Seq<char> {
    match p {
        DecodePath::Idle => "none"@,
        DecodePath::Image => "image"@,
        DecodePath::Soft => "soft"@,
        DecodePath::VaapiDmabuf => "vaapi-dmabuf"@,
        DecodePath::VulkanVideo => "vulkan-video"@,
    }
}

impl DecodePath {
    pub fn as_str(self) -> (r: &'static str)
        ensures
            r@ == spec_decode_path_name(self),
    {
        match self {
            DecodePath::Idle => "none",
            DecodePath::Image => "image",
            DecodePath::Soft => "soft",
            DecodePath::VaapiDmabuf => "vaapi-dmabuf",
            DecodePath::VulkanVideo => "vulkan-video",
        }
    }
}

/// One plane of a DMA-BUF frame; `Fd` is the type that owns the descriptor.
#[derive(Debug)]
pub struct DmabufPlane<Fd> {
    pub fd: Fd,
    pub offset: u32,
    pub stride: u32,
}

/// Zero-copy DMA-BUF planes (DRM_PRIME).
#[derive(Debug)]
pub struct DmabufFrame<Fd> {
    pub width: u32,
    pub height: u32,
    pub format: u32,
    pub modifier: u64,
    pub planes: Vec<DmabufPlane<Fd>>,
}

/// A single presentable frame.
#[derive(Debug)]
pub enum Frame<Fd> {
    /// Packed XRGB8888 (little-endian) pixels in host memory.
    Shm { width: u32, height: u32, stride: u32, pixels: Vec<u8> },
    /// Zero-copy DMA-BUF planes.
    Dmabuf(DmabufFrame<Fd>),
}

/// XRGB8888 bytes (B, G, R, 0xff per pixel) of `n` packed RGB8 pixels.
pub open spec fn xrgb_of_rgb(rgb: Seq<u8>, n: nat) -> Seq<u8> {
    Seq::new(
        4 * n,
        |k: int|
            {
                let i = k / 4;
                let c = k % 4;
                if c == 0 {
                    rgb[3 * i + 2]
                } else if c == 1 {
                    rgb[3 * i + 1]
                } else if c == 2 {
                    rgb[3 * i]
                } else {
                    0xffu8
                }
            },
    )
}

/// XRGB8888 bytes (B, G, R, A per pixel) of `n` packed RGBA8 pixels.
pub open spec fn xrgb_of_rgba(rgba: Seq<u8>, n: nat) -> Seq<u8> {
    Seq::new(
        4 * n,
        |k: int|
            {
                let i = k / 4;
                let c = k % 4;
                if c == 0 {
                    rgba[4 * i + 2]
                } else if c == 1 {
                    rgba[4 * i + 1]
                } else if c == 2 {
                    rgba[4 * i]
                } else {
                    rgba[4 * i + 3]
                }
            },
    )
}

/// XRGB8888 bytes of `n` pixels of one colour.
pub open spec fn solid_pixels(r: u8, g: u8, b: u8, n: nat) -> Seq<u8> {
    Seq::new(
        4 * n,
        |k: int|
            {
                let c = k % 4;
                if c == 0 {
                    b
                } else if c == 1 {
                    g
                } else if c == 2 {
                    r
                } else {
                    0xffu8
                }
            },
    )
}

proof fn lemma_pixel_count(width: u32, height: u32)
    requires
        4 * width * height <= u32::MAX,
    ensures
        width * height <= u32::MAX / 4,
        4 * (width * height) == 4 * width * height,
        3 * (width * height) == 3 * width * height,
        (width * 4) * height == 4 * width * height,
{
    assert(width * height <= u32::MAX / 4 && 4 * (width * height) == 4 * width * height
        && 3 * (width * height) == 3 * width * height
        && (width * 4) * height == 4 * width * height) by (nonlinear_arith)
        requires
            4 * width * height <= u32::MAX,
    ;
}

impl<Fd> Frame<Fd> {
    pub open spec fn spec_width(&self) -> u32 {
        match self {
            Frame::Shm { width, .. } => *width,
            Frame::Dmabuf(d) => d.width,
        }
    }

    pub open spec fn spec_height(&self) -> u32 {
        match self {
            Frame::Shm { height, .. } => *height,
            Frame::Dmabuf(d) => d.height,
        }
    }

    pub fn width(&self) -> (r: u32)
        ensures
            r == self.spec_width(),
    {
        match self {
            Frame::Shm { width, .. } => *width,
            Frame::Dmabuf(d) => d.width,
        }
    }

    pub fn height(&self) -> (r: u32)
        ensures
            r == self.spec_height(),
    {
        match self {
            Frame::Shm { height, .. } => *height,
            Frame::Dmabuf(d) => d.height,
        }
    }

    /// An SHM frame over pixels that are already XRGB8888.
    pub fn from_xrgb8(width: u32, height: u32, stride: u32, pixels: Vec<u8>) -> (f: Self)
        ensures
            f == (Frame::<Fd>::Shm { width, height, stride, pixels }),
    {
        Frame::Shm { width, height, stride, pixels }
    }

    /// Builds an XRGB8888 SHM frame from tightly packed RGB8.
    /// The buffer's byte count is the `u32` product stride × height, so
    /// `4 * width * height` must fit in 32 bits.
    pub fn from_rgb8(width: u32, height: u32, rgb: &[u8]) -> (f: Self)
        requires
            width <= u32::MAX / 4,
            4 * width * height <= u32::MAX,
            rgb@.len() >= 3 * width * height,
        ensures
            f matches Frame::Shm { width: w, height: h, stride: s, pixels: p } && w == width && h
                == height && s == 4 * width && p@ == xrgb_of_rgb(rgb@, (width * height) as nat),
    {
        proof {
            lemma_pixel_count(width, height);
        }
        let stride = width * 4;
        let n = (width as usize) * (height as usize);
        let mut pixels: Vec<u8> = Vec::new();
        let mut i: usize = 0;
        while i < n
            invariant
                i <= n,
                n == width * height,
                n <= u32::MAX / 4,
                rgb@.len() >= 3 * n,
                pixels@ == xrgb_of_rgb(rgb@, i as nat),
            decreases n - i,
        {
            let si = 3 * i;
            pixels.push(rgb[si + 2]);
            pixels.push(rgb[si + 1]);
            pixels.push(rgb[si]);
            pixels.push(0xff);
            i = i + 1;
            assert(pixels@ =~= xrgb_of_rgb(rgb@, i as nat));
        }
        Frame::Shm { width, height, stride, pixels }
    }

    /// Builds an XRGB8888 SHM frame from tightly packed RGBA8, keeping the
    /// alpha byte.
    /// The buffer's byte count is the `u32` product stride × height, so
    /// `4 * width * height` must fit in 32 bits.
    pub fn from_rgba8(width: u32, height: u32, rgba: &[u8]) -> (f: Self)
        requires
            width <= u32::MAX / 4,
            4 * width * height <= u32::MAX,
            rgba@.len() >= 4 * width * height,
        ensures
            f matches Frame::Shm { width: w, height: h, stride: s, pixels: p } && w == width && h
                == height && s == 4 * width && p@ == xrgb_of_rgba(rgba@, (width * height) as nat),
    {
        proof {
            lemma_pixel_count(width, height);
        }
        let stride = width * 4;
        let n = (width as usize) * (height as usize);
        let mut pixels: Vec<u8> = Vec::new();
        let mut i: usize = 0;
        while i < n
            invariant
                i <= n,
                n == width * height,
                n <= u32::MAX / 4,
                rgba@.len() >= 4 * n,
                pixels@ == xrgb_of_rgba(rgba@, i as nat),
            decreases n - i,
        {
            let si = 4 * i;
            pixels.push(rgba[si + 2]);
            pixels.push(rgba[si + 1]);
            pixels.push(rgba[si]);
            pixels.push(rgba[si + 3]);
            i = i + 1;
            assert(pixels@ =~= xrgb_of_rgba(rgba@, i as nat));
        }
        Frame::Shm { width, height, stride, pixels }
    }

    /// A frame of one colour covering `width` × `height`.
    /// The buffer's byte count is the `u32` product stride × height, so
    /// `4 * width * height` must fit in 32 bits.
    pub fn solid(width: u32, height: u32, r: u8, g: u8, b: u8) -> (f: Self)
        requires
            width <= u32::MAX / 4,
            4 * width * height <= u32::MAX,
        ensures
            f matches Frame::Shm { width: w, height: h, stride: s, pixels: p } && w == width && h
                == height && s == 4 * width && p@ == solid_pixels(r, g, b, (width * height) as nat),
    {
        proof {
            lemma_pixel_count(width, height);
        }
        let n = (width as usize) * (height as usize);
        let mut pixels: Vec<u8> = Vec::new();
        let mut i: usize = 0;
        while i < n
            invariant
                i <= n,
                n <= u32::MAX / 4,
                pixels@ == solid_pixels(r, g, b, i as nat),
            decreases n - i,
        {
            pixels.push(b);
            pixels.push(g);
            pixels.push(r);
            pixels.push(0xff);
            i = i + 1;
            assert(pixels@ =~= solid_pixels(r, g, b, i as nat));
        }
        Frame::Shm { width, height, stride: width * 4, pixels }
    }
}

} // verus!
