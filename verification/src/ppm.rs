//! The image as text: a plain-text bitmap of decimal numbers.

use vstd::prelude::*;
use crate::vec3::{channel_of, quantize, Color};

verus! {

/// The decimal digits of `n`, as ASCII bytes, without leading zeros.
pub open spec fn decimal(n: nat) -> Seq<u8>
    decreases n,
{
    if n < 10 {
        seq![(48 + n) as u8]
    } else {
        decimal(n / 10).push((48 + n % 10) as u8)
    }
}

/// The header of an image of the given size: the mark of a plain-text
/// pixmap, the width and the height, and the largest channel value, 255,
/// each on a line of its own.
pub open spec fn header_text(width: nat, height: nat) -> Seq<u8> {
    seq![80u8, 51u8, 10u8] + decimal(width) + seq![32u8] + decimal(height) + seq![
        10u8,
        50u8,
        53u8,
        53u8,
        10u8,
    ]
}

/// One pixel: its three 8-bit channels in decimal, a space after each.
pub open spec fn pixel_text(c: Color) -> Seq<u8> {
    decimal(channel_of(c.x) as nat) + seq![32u8] + decimal(channel_of(c.y) as nat) + seq![32u8]
        + decimal(channel_of(c.z) as nat) + seq![32u8]
}

/// The first `n` pixels in row-major order, a line break after each full
/// row of `width` pixels.
pub open spec fn body_text(pixels: Seq<Color>, width: nat, n: nat) -> Seq<u8>
    decreases n,
{
    if n == 0 {
        Seq::<u8>::empty()
    } else {
        let before = body_text(pixels, width, (n - 1) as nat) + pixel_text(pixels[n - 1]);
        if width > 0 && n % width == 0 {
            before.push(10u8)
        } else {
            before
        }
    }
}

/// `count` black pixels, which stand for the pixels not rendered yet.
pub open spec fn placeholder_text(count: nat) -> Seq<u8>
    decreases count,
{
    if count == 0 {
        Seq::<u8>::empty()
    } else {
        placeholder_text((count - 1) as nat) + seq![48u8, 32u8, 48u8, 32u8, 48u8, 32u8]
    }
}

/// An image of `width` by `height` pixels of which `pixels` are rendered:
/// the header, the rendered pixels, and black for the rest.
pub open spec fn frame_text(width: nat, height: nat, pixels: Seq<Color>) -> Seq<u8> {
    header_text(width, height) + body_text(pixels, width, pixels.len()) + placeholder_text(
        missing(width, height, pixels.len()),
    )
}

/// The number of pixels that an image of `width` by `height` still lacks
/// when `done` are rendered.
pub open spec fn missing(width: nat, height: nat, done: nat) -> nat {
    if width * height > done {
        (width * height - done) as nat
    } else {
        0
    }
}

/// Appends the decimal digits of `n`.
pub fn push_decimal(out: &mut Vec<u8>, n: u32)
    ensures
        final(out)@ == old(out)@ + decimal(n as nat),
    decreases n,
{
    if n >= 10 {
        push_decimal(out, n / 10);
    }
    out.push(48 + (n % 10) as u8);
    assert(final(out)@ =~= old(out)@ + decimal(n as nat));
}

/// Appends the header of an image of the given size.
pub fn push_header(out: &mut Vec<u8>, width: u32, height: u32)
    ensures
        final(out)@ == old(out)@ + header_text(width as nat, height as nat),
{
    out.push(80);
    out.push(51);
    out.push(10);
    push_decimal(out, width);
    out.push(32);
    push_decimal(out, height);
    out.push(10);
    out.push(50);
    out.push(53);
    out.push(53);
    out.push(10);
    assert(final(out)@ =~= old(out)@ + header_text(width as nat, height as nat));
}

/// Appends one pixel.
pub fn push_pixel(out: &mut Vec<u8>, c: &Color)
    ensures
        final(out)@ == old(out)@ + pixel_text(*c),
{
    push_decimal(out, quantize(c.x) as u32);
    out.push(32);
    push_decimal(out, quantize(c.y) as u32);
    out.push(32);
    push_decimal(out, quantize(c.z) as u32);
    out.push(32);
    assert(final(out)@ =~= old(out)@ + pixel_text(*c));
}

/// The text of an image of `width` by `height` pixels of which `pixels`
/// are rendered, in row-major order from the top row; the pixels that are
/// missing come out black.
pub fn frame(width: u32, height: u32, pixels: &Vec<Color>) -> (out: Vec<u8>)
    ensures
        out@ == frame_text(width as nat, height as nat, pixels@),
{
    let mut out: Vec<u8> = Vec::new();
    push_header(&mut out, width, height);
    let n: usize = pixels.len();
    let mut k: usize = 0;
    while k < n
        invariant
            0 <= k <= n,
            n == pixels.len(),
            out@ == header_text(width as nat, height as nat) + body_text(
                pixels@,
                width as nat,
                k as nat,
            ),
        decreases n - k,
    {
        let ghost before = out@;
        push_pixel(&mut out, &pixels[k]);
        k += 1;
        if width > 0 && (k as u64) % (width as u64) == 0 {
            out.push(10);
        }
        assert(out@ =~= header_text(width as nat, height as nat) + body_text(
            pixels@,
            width as nat,
            k as nat,
        ));
    }
    assert((width as u64) * (height as u64) <= 0xffff_ffff * 0xffff_ffff) by (nonlinear_arith)
        requires
            width <= 0xffff_ffff,
            height <= 0xffff_ffff,
    ;
    let total: u64 = (width as u64) * (height as u64);
    let rest: u64 = if total > n as u64 { total - n as u64 } else { 0 };
    let mut c: u64 = 0;
    while c < rest
        invariant
            0 <= c <= rest,
            rest == missing(width as nat, height as nat, pixels@.len()),
            out@ == header_text(width as nat, height as nat) + body_text(
                pixels@,
                width as nat,
                pixels@.len(),
            ) + placeholder_text(c as nat),
        decreases rest - c,
    {
        out.push(48);
        out.push(32);
        out.push(48);
        out.push(32);
        out.push(48);
        out.push(32);
        c += 1;
        assert(out@ =~= header_text(width as nat, height as nat) + body_text(
            pixels@,
            width as nat,
            pixels@.len(),
        ) + placeholder_text(c as nat));
    }
    out
}

} // verus!
