//! # Boot framebuffer fill
//!
//! Paints the middle of the screen (half the width and half the height) in
//! one colour. The plan of the fill, the pixel value and the rectangle, is
//! computed here; the caller writes the pixels to the framebuffer memory.

use crate::bits::VirtualMemoryPageBits;
use vstd::prelude::*;

verus! {

/// The offset of a VGA-like window inside the direct map (1 GiB).
pub const VGA_LIKE_OFFSET: u64 = 1u64 << 30u64;

/// The pixel layout that the firmware reported.
#[derive(Copy, Clone, Debug, PartialEq, Eq, Structural)]
pub enum BootPixelFormat {
    /// 32-bit pixels, red in the low byte.
    Rgb,
    /// 32-bit pixels, blue in the low byte.
    Bgr,
    /// Pixels described by channel masks.
    Bitmask,
    /// No direct framebuffer access.
    BltOnly,
}

/// The framebuffer geometry the fill needs: pixel format, row stride in
/// pixels, width and height in pixels.
#[derive(Copy, Clone, Debug)]
pub struct FramebufferInfo {
    pub framebuffer_format: BootPixelFormat,
    pub framebuffer_stride: u64,
    pub framebuffer_width: u64,
    pub framebuffer_height: u64,
}

/// The pixels to write: `px` at `y * stride + x` for `start_y <= y < end_y`
/// and `start_x <= x < end_x`.
#[derive(Copy, Clone, Debug, PartialEq, Eq, Structural)]
pub struct FillPlan {
    pub px: u32,
    pub stride: usize,
    pub start_x: usize,
    pub end_x: usize,
    pub start_y: usize,
    pub end_y: usize,
}

/// The 32-bit pixel for `r`, `g`, `b` (opaque alpha in the top byte) in
/// `format`, if the format has direct 32-bit pixels.
pub open spec fn pixel_value(format: BootPixelFormat, r: u8, g: u8, b: u8) -> Option<u32> {
    match format {
        BootPixelFormat::Rgb => Some(
            (0xFF00_0000u32 | ((b as u32) << 16u32) | ((g as u32) << 8u32) | (r as u32)) as u32,
        ),
        BootPixelFormat::Bgr => Some(
            (0xFF00_0000u32 | ((r as u32) << 16u32) | ((g as u32) << 8u32) | (b as u32)) as u32,
        ),
        _ => None,
    }
}

proof fn lemma_channel_bytes(x: u8, y: u8, z: u8)
    by (bit_vector)
    ensures
        ({
            let p = 0xFF00_0000u32 | ((z as u32) << 16u32) | ((y as u32) << 8u32) | (x as u32);
            &&& p & 0xff == x as u32
            &&& (p >> 8u32) & 0xff == y as u32
            &&& (p >> 16u32) & 0xff == z as u32
            &&& p >> 24u32 == 0xff
        }),
{
}

/// A pixel holds its three channels in one byte each, with an opaque alpha
/// in the top byte: red in the low byte for [`BootPixelFormat::Rgb`], blue
/// in the low byte for [`BootPixelFormat::Bgr`]. The other formats have no
/// direct 32-bit pixel.
pub proof fn lemma_pixel_channels(format: BootPixelFormat, r: u8, g: u8, b: u8)
    ensures
        match pixel_value(format, r, g, b) {
            Some(p) => {
                &&& p >> 24u32 == 0xff
                &&& (p >> 8u32) & 0xff == g as u32
                &&& format == BootPixelFormat::Rgb ==> p & 0xff == r as u32 && (p >> 16u32) & 0xff
                    == b as u32
                &&& format == BootPixelFormat::Bgr ==> p & 0xff == b as u32 && (p >> 16u32) & 0xff
                    == r as u32
            },
            None => format == BootPixelFormat::Bitmask || format == BootPixelFormat::BltOnly,
        },
{
    lemma_channel_bytes(r, g, b);
    lemma_channel_bytes(b, g, r);
}

/// The rectangle of a fill lies on the screen: from a quarter to three
/// quarters of each dimension.
pub proof fn lemma_fill_on_screen(w: usize, h: usize)
    ensures
        w / 4 <= w * 3 / 4 <= w,
        h / 4 <= h * 3 / 4 <= h,
{
}

/// A dimension as `usize`, or 0 where it does not fit.
pub open spec fn dim(v: u64) -> usize {
    if v <= usize::MAX {
        v as usize
    } else {
        0
    }
}

/// The pixel for `r`, `g`, `b` in `format`.
pub fn solid_pixel(format: BootPixelFormat, r: u8, g: u8, b: u8) -> (p: Option<u32>)
    ensures
        p == pixel_value(format, r, g, b),
{
    match format {
        BootPixelFormat::Rgb => Some(
            0xFF00_0000u32 | ((b as u32) << 16u32) | ((g as u32) << 8u32) | (r as u32),
        ),
        BootPixelFormat::Bgr => Some(
            0xFF00_0000u32 | ((r as u32) << 16u32) | ((g as u32) << 8u32) | (b as u32),
        ),
        BootPixelFormat::Bitmask | BootPixelFormat::BltOnly => None,
    }
}

fn to_dim(v: u64) -> (r: usize)
    ensures
        r == dim(v),
{
    if v <= usize::MAX as u64 {
        v as usize
    } else {
        0
    }
}

/// The fill of the middle of `fb` with `r`, `g`, `b`: `None` when the format
/// has no direct 32-bit pixels or the stride is 0; otherwise the rectangle
/// from a quarter to three quarters of the width and of the height.
pub fn fill_solid(fb: &FramebufferInfo, r: u8, g: u8, b: u8) -> (plan: Option<FillPlan>)
    requires
        dim(fb.framebuffer_width) * 3 <= usize::MAX,
        dim(fb.framebuffer_height) * 3 <= usize::MAX,
    ensures
        plan == match pixel_value(fb.framebuffer_format, r, g, b) {
            Some(px) => if dim(fb.framebuffer_stride) == 0 {
                None
            } else {
                Some(
                    FillPlan {
                        px,
                        stride: dim(fb.framebuffer_stride),
                        start_x: (dim(fb.framebuffer_width) / 4) as usize,
                        end_x: (dim(fb.framebuffer_width) * 3 / 4) as usize,
                        start_y: (dim(fb.framebuffer_height) / 4) as usize,
                        end_y: (dim(fb.framebuffer_height) * 3 / 4) as usize,
                    },
                )
            },
            None => None,
        },
{
    if fb.framebuffer_format == BootPixelFormat::BltOnly {
        return None;
    }
    let px = match solid_pixel(fb.framebuffer_format, r, g, b) {
        Some(p) => p,
        None => {
            return None;
        },
    };
    let stride = to_dim(fb.framebuffer_stride);
    if stride == 0 {
        return None;
    }
    let w = to_dim(fb.framebuffer_width);
    let h = to_dim(fb.framebuffer_height);
    Some(
        FillPlan {
            px,
            stride,
            start_x: w / 4,
            end_x: w * 3 / 4,
            start_y: h / 4,
            end_y: h * 3 / 4,
        },
    )
}

/// The flags the framebuffer is mapped with: writable, write-combining
/// (PAT bit 2 and cache-disable set, write-through clear), global and not
/// executable.
pub fn framebuffer_mapping_flags() -> (r: VirtualMemoryPageBits)
    ensures
        r == (VirtualMemoryPageBits {
            writable: true,
            cache_disable: true,
            pat_bit2: true,
            global: true,
            no_execute: true,
            ..VirtualMemoryPageBits::empty()
        }),
{
    VirtualMemoryPageBits::new().with_writable(true).with_write_combining().with_global(true).with_no_execute(
        true,
    )
}

/// Where the framebuffer at physical address `fb_pa` is seen once mapped
/// at [`VGA_LIKE_OFFSET`] in the direct map that starts at `hhdm_base`:
/// the start of the mapping, and the framebuffer's address in it (the
/// offset inside the first page is kept).
pub fn framebuffer_window(hhdm_base: u64, fb_pa: u64) -> (r: (u64, u64))
    requires
        hhdm_base + VGA_LIKE_OFFSET + 0xFFF <= u64::MAX,
    ensures
        r.0 == hhdm_base + VGA_LIKE_OFFSET,
        r.1 == hhdm_base + VGA_LIKE_OFFSET + (fb_pa & 0xFFF),
{
    let va_base = hhdm_base + VGA_LIKE_OFFSET;
    proof {
        assert(fb_pa & 0xFFF <= 0xFFF) by (bit_vector);
    }
    (va_base, va_base + (fb_pa & 0xFFF))
}

} // verus!
