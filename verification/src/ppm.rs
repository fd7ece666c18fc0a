//! The plain-text pixel-grid encoding the renderer emits.
//!
//! A header of the magic bytes, the grid dimensions and the channel maximum,
//! then one decimal "R G B" triple per pixel, row-major, top to bottom, left
//! to right.  The encoder's output is pinned byte for byte, so a fixed scene,
//! camera and seed reproduce the stream exactly.

use vstd::prelude::*;

verus! {

/// Decimal digits of `n`, most significant first.
pub open spec fn dec_digits(n: int) -> Seq<u8>
    decreases n,
{
    if n < 10 {
        seq![(48 + n) as u8]
    } else {
        dec_digits(n / 10).push((48 + n % 10) as u8)
    }
}

/// Header: `P3`, newline, width, space, height, newline, `255`, newline.
pub open spec fn ppm_header(width: int, height: int) -> Seq<u8> {
    seq![80u8, 51u8, 10u8] + dec_digits(width) + seq![32u8] + dec_digits(height) + seq![10u8]
        + dec_digits(255) + seq![10u8]
}

/// One pixel: the three channel values in decimal, space-separated, then a
/// newline.
pub open spec fn pixel_line(p: (u8, u8, u8)) -> Seq<u8> {
    dec_digits(p.0 as int) + seq![32u8] + dec_digits(p.1 as int) + seq![32u8] + dec_digits(
        p.2 as int,
    ) + seq![10u8]
}

/// All pixel lines, in order.
pub open spec fn ppm_pixels(px: Seq<(u8, u8, u8)>) -> Seq<u8>
    decreases px.len(),
{
    if px.len() == 0 {
        Seq::empty()
    } else {
        ppm_pixels(px.drop_last()) + pixel_line(px.last())
    }
}

/// The whole stream: header, then the pixel lines.
pub open spec fn ppm_spec(width: int, height: int, px: Seq<(u8, u8, u8)>) -> Seq<u8> {
    ppm_header(width, height) + ppm_pixels(px)
}

/// Append the decimal digits of `n`.
fn push_dec(n: u32, out: &mut Vec<u8>)
    ensures
        final(out)@ == old(out)@ + dec_digits(n as int),
    decreases n,
{
    if n >= 10 {
        push_dec(n / 10, out);
    }
    out.push(48 + (n % 10) as u8);
    proof {
        assert(out@ =~= old(out)@ + dec_digits(n as int));
    }
}

/// Encode a row-major pixel grid as the plain-text stream.
pub fn ppm_encode(width: u32, height: u32, pixels: &Vec<(u8, u8, u8)>) -> (out: Vec<u8>)
    requires
        pixels@.len() == width * height,
    ensures
        out@ == ppm_spec(width as int, height as int, pixels@),
{
    let mut out: Vec<u8> = Vec::new();
    out.push(80);
    out.push(51);
    out.push(10);
    push_dec(width, &mut out);
    out.push(32);
    push_dec(height, &mut out);
    out.push(10);
    push_dec(255, &mut out);
    out.push(10);
    assert(out@ =~= ppm_header(width as int, height as int));

    let mut i: usize = 0;
    while i < pixels.len()
        invariant
            0 <= i <= pixels@.len(),
            out@ == ppm_header(width as int, height as int) + ppm_pixels(pixels@.take(i as int)),
        decreases pixels@.len() - i,
    {
        let p = pixels[i];
        push_dec(p.0 as u32, &mut out);
        out.push(32);
        push_dec(p.1 as u32, &mut out);
        out.push(32);
        push_dec(p.2 as u32, &mut out);
        out.push(10);
        proof {
            assert(pixels@.take(i + 1).drop_last() =~= pixels@.take(i as int));
            assert(pixels@.take(i + 1).last() == pixels@[i as int]);
            assert(out@ =~= ppm_header(width as int, height as int) + ppm_pixels(
                pixels@.take(i + 1),
            ));
        }
        i += 1;
    }
    proof {
        assert(pixels@.take(pixels@.len() as int) =~= pixels@);
    }
    out
}

} // verus!
