use vstd::prelude::*;

verus! {

/// Pixel layouts that frames can arrive in.
#[derive(Clone, Copy, Debug, PartialEq, Eq, Structural)]
pub enum PixelFormat {
    Bgra,
    Rgba,
    Yuv420p,
    Yuv422p,
    Yuv444p,
    Rgb24,
    Bgr24,
    Nv12,
    Unknown,
}

/// Bytes taken by `pixels` pixels of a format. Formats without a known
/// layout are counted at four bytes per pixel.
pub open spec fn frame_bytes(format: PixelFormat, pixels: int) -> int {
    match format {
        PixelFormat::Nv12 | PixelFormat::Yuv420p => pixels * 3 / 2,
        PixelFormat::Bgra | PixelFormat::Rgba => pixels * 4,
        PixelFormat::Rgb24 | PixelFormat::Bgr24 => pixels * 3,
        PixelFormat::Yuv422p => pixels * 2,
        PixelFormat::Yuv444p => pixels * 3,
        PixelFormat::Unknown => pixels * 4,
    }
}

/// Size of one frame of `width` by `height` pixels.
pub open spec fn frame_size_of(format: PixelFormat, width: int, height: int) -> int {
    frame_bytes(format, width * height)
}

/// The source layout that an upper-cased format tag selects: NV12 when the
/// tag is "NV12", packed BGRA for anything else.
pub open spec fn format_for_upper_tag(upper: Seq<char>) -> PixelFormat {
    if upper == "NV12"@ {
        PixelFormat::Nv12
    } else {
        PixelFormat::Bgra
    }
}

/// What `str::to_uppercase` makes of a string.
pub uninterp spec fn uppercase_of(s: Seq<char>) -> Seq<char>;

/// Relies on `str::to_uppercase`: the upper-cased string depends on the
/// characters of its argument alone.
#[verifier::external_body]
fn to_uppercase(s: &str) -> (r: String)
    ensures
        r@ == uppercase_of(s@),
{
    s.to_uppercase()
}

/// Frame size in bytes, or `None` when it does not fit in `usize`.
pub fn checked_frame_size(format: PixelFormat, width: u32, height: u32) -> (r: Option<usize>)
    ensures
        match r {
            Some(n) => n == frame_size_of(format, width as int, height as int),
            None => frame_size_of(format, width as int, height as int) > usize::MAX,
        },
{
    proof {
        assert(width * height <= 0xffff_ffff_ffff_ffffu128) by (nonlinear_arith)
            requires
                width <= 0xffff_ffffu32,
                height <= 0xffff_ffffu32,
        ;
    }
    let pixels: u128 = (width as u128) * (height as u128);
    let bytes: u128 = match format {
        PixelFormat::Nv12 | PixelFormat::Yuv420p => pixels * 3 / 2,
        PixelFormat::Bgra | PixelFormat::Rgba => pixels * 4,
        PixelFormat::Rgb24 | PixelFormat::Bgr24 => pixels * 3,
        PixelFormat::Yuv422p => pixels * 2,
        PixelFormat::Yuv444p => pixels * 3,
        PixelFormat::Unknown => pixels * 4,
    };
    if bytes > usize::MAX as u128 {
        None
    } else {
        Some(bytes as usize)
    }
}

/// The source layout for a format tag, whatever its case: "NV12" selects
/// NV12 and every other tag falls back to packed BGRA.
pub fn source_format(tag: &str) -> (r: PixelFormat)
    ensures
        r == format_for_upper_tag(uppercase_of(tag@)),
{
    let upper = to_uppercase(tag);
    format_for_upper(upper.as_str())
}

/// The source layout for a tag that is already upper-cased.
pub fn format_for_upper(upper: &str) -> (r: PixelFormat)
    ensures
        r == format_for_upper_tag(upper@),
{
    let given = upper.to_owned();
    let nv12 = "NV12".to_owned();
    if given == nv12 {
        PixelFormat::Nv12
    } else {
        PixelFormat::Bgra
    }
}

} // verus!
