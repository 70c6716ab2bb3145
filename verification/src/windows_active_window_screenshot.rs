//! Active-window screenshots: validation of the captured size, conversion of
//! the captured BGRA pixels, and PNG encoding. Pixels stay in memory.
use vstd::prelude::*;
use crate::text::string_from;
use crate::png::{encode_png_rgba, png_file};

verus! {

/// Largest capture accepted, in pixels.
pub const MAX_CAPTURE_PIXELS: i64 = 16_000_000;

/// Error for a window whose size cannot be captured.
pub const INVALID_DIMENSIONS: &'static str = "window dimensions are invalid or exceed screenshot limit";

/// Error where no screen-capture backend exists.
pub const CAPTURE_UNAVAILABLE: &'static str = "Windows screenshot provider is unavailable on this platform";

/// Whether a `width` x `height` window can be captured: both sides
/// positive and at most 16 million pixels.
pub open spec fn capture_dimensions_ok(width: i32, height: i32) -> bool {
    width > 0 && height > 0 && width * height <= MAX_CAPTURE_PIXELS
}

/// Checks the size of a window before capturing it.
pub fn capture_dimensions_valid(width: i32, height: i32) -> (r: bool)
    ensures
        r == capture_dimensions_ok(width, height),
{
    if width <= 0 || height <= 0 {
        return false;
    }
    let w = width as i64;
    let h = height as i64;
    assert(0 < w * h < 0x4000_0000_0000_0000) by (nonlinear_arith)
        requires
            0 < w < 0x8000_0000,
            0 < h < 0x8000_0000,
    ;
    w * h <= MAX_CAPTURE_PIXELS
}

/// Byte `i` of `pixels` after converting each whole four-byte BGRA pixel
/// to opaque RGBA; bytes past the last whole pixel are unchanged.
pub open spec fn opaque_rgba_byte(pixels: Seq<u8>, i: int) -> u8 {
    if i >= (pixels.len() / 4) * 4 {
        pixels[i]
    } else if i % 4 == 0 {
        pixels[i + 2]
    } else if i % 4 == 2 {
        pixels[i - 2]
    } else if i % 4 == 3 {
        255u8
    } else {
        pixels[i]
    }
}

/// `pixels` with each whole pixel converted from BGRA to opaque RGBA.
pub open spec fn opaque_rgba(pixels: Seq<u8>) -> Seq<u8> {
    Seq::new(pixels.len(), |i: int| opaque_rgba_byte(pixels, i))
}

/// Swaps blue and red and sets alpha to 255 in every whole pixel.
pub fn bgra_to_opaque_rgba(pixels: &mut Vec<u8>)
    ensures
        final(pixels)@ == opaque_rgba(old(pixels)@),
{
    let ghost original = pixels@;
    let n = pixels.len();
    let whole = n / 4 * 4;
    let mut p: usize = 0;
    while p < whole
        invariant
            n == original.len(),
            whole == (original.len() / 4) * 4,
            pixels@.len() == n,
            p % 4 == 0,
            p <= whole,
            forall|i: int| 0 <= i < p ==> pixels@[i] == #[trigger] opaque_rgba_byte(original, i),
            forall|i: int| p <= i < n ==> pixels@[i] == original[i],
        decreases whole - p,
    {
        let blue = pixels[p];
        let red = pixels[p + 2];
        pixels.set(p, red);
        pixels.set(p + 2, blue);
        pixels.set(p + 3, 255u8);
        assert(opaque_rgba_byte(original, p as int) == original[p + 2]);
        assert(opaque_rgba_byte(original, p + 1) == original[p + 1]);
        assert(opaque_rgba_byte(original, p + 2) == original[p as int]);
        assert(opaque_rgba_byte(original, p + 3) == 255u8);
        p = p + 4;
    }
    assert(pixels@ =~= opaque_rgba(original));
}

/// PNG bytes of a capture of `width` x `height` BGRA pixels (as a device
/// context hands them out): the size is checked, the pixels made opaque
/// RGBA, and the image encoded.
pub fn png_from_bgra_capture(width: i32, height: i32, pixels: Vec<u8>) -> (r: Result<Vec<u8>, String>)
    ensures
        !capture_dimensions_ok(width, height) ==> (r matches Err(e) && e@ == INVALID_DIMENSIONS@),
        capture_dimensions_ok(width, height) && pixels@.len() == width * height * 4 ==> (r matches Ok(
            png,
        ) && png@ == png_file(width as u32, height as u32, opaque_rgba(pixels@))),
        capture_dimensions_ok(width, height) && pixels@.len() != width * height * 4 ==> (r matches Err(e)
            && e@ == "pixel buffer dimensions do not match"@),
{
    if !capture_dimensions_valid(width, height) {
        return Err(string_from(INVALID_DIMENSIONS));
    }
    let mut rgba = pixels;
    bgra_to_opaque_rgba(&mut rgba);
    assert(width as u32 * height as u32 * 4 <= 64_000_000) by (nonlinear_arith)
        requires
            width > 0,
            height > 0,
            width * height <= 16_000_000,
    ;
    assert(width as u32 * 4 <= 64_000_000) by (nonlinear_arith)
        requires
            width > 0,
            height > 0,
            width * height <= 16_000_000,
    ;
    encode_png_rgba(width as u32, height as u32, rgba.as_slice())
}

/// Captures the client area of a window as PNG bytes. Capturing needs the
/// Windows GDI bindings, which this build does not have, so every call
/// fails with that explanation instead of panicking.
pub fn capture_window_png(window_handle: isize) -> (r: Result<Vec<u8>, String>)
    ensures
        r matches Err(e) && e@ == CAPTURE_UNAVAILABLE@,
{
    Err(string_from(CAPTURE_UNAVAILABLE))
}

/// Opening a Direct3D 11 capture session; it needs the Windows graphics
/// bindings, which this build does not have.
pub fn initialize(window_handle: isize) -> (r: Result<(), String>)
    ensures
        r matches Err(e) && e@ == "D3D11 capture is only available on Windows"@,
{
    Err(string_from("D3D11 capture is only available on Windows"))
}

} // verus!
