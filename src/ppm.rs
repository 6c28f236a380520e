use crate::vec3::{Color, Rgb};
use vstd::prelude::*;

verus! {

/// The ASCII byte of the decimal digit `d`.
pub open spec fn digit_byte(d: nat) -> u8
    recommends
        d < 10,
{
    (48 + d) as u8
}

/// The decimal representation of `n`, most significant digit first, without
/// leading zeros (zero is written `0`).
pub open spec fn decimal(n: nat) -> Seq<u8>
    decreases n,
{
    if n < 10 {
        seq![digit_byte(n)]
    } else {
        decimal(n / 10).push(digit_byte(n % 10))
    }
}

/// The image header: the magic `P3`, the width and height, and the largest
/// channel value, each on a line of its own.
pub open spec fn header_text(width: nat, height: nat) -> Seq<u8> {
    seq![80u8, 51u8, 10u8] + decimal(width) + seq![32u8] + decimal(height) + seq![
        10u8,
        50u8,
        53u8,
        53u8,
        10u8,
    ]
}

/// One pixel: its three channels in decimal, separated by spaces, ending the line.
pub open spec fn pixel_text(p: Rgb) -> Seq<u8> {
    decimal(p.red as nat) + seq![32u8] + decimal(p.green as nat) + seq![32u8] + decimal(
        p.blue as nat,
    ) + seq![10u8]
}

/// The pixel lines of `pixels`, in the order given.
pub open spec fn body_text(pixels: Seq<Rgb>) -> Seq<u8>
    decreases pixels.len(),
{
    if pixels.len() == 0 {
        Seq::empty()
    } else {
        body_text(pixels.drop_last()) + pixel_text(pixels.last())
    }
}

/// The whole image file.
pub open spec fn ppm_text(width: nat, height: nat, pixels: Seq<Rgb>) -> Seq<u8> {
    header_text(width, height) + body_text(pixels)
}

/// Appends the decimal representation of `n`.
pub fn push_decimal(out: &mut Vec<u8>, n: usize)
    ensures
        final(out)@ == old(out)@ + decimal(n as nat),
    decreases n,
{
    if n >= 10 {
        push_decimal(out, n / 10);
    }
    let d: usize = n % 10;
    out.push(48u8 + d as u8);
    assert(out@ =~= old(out)@ + decimal(n as nat));
}

/// Appends the image header for a `width` by `height` image.
pub fn header(out: &mut Vec<u8>, width: usize, height: usize)
    ensures
        final(out)@ == old(out)@ + header_text(width as nat, height as nat),
{
    out.push(80u8);
    out.push(51u8);
    out.push(10u8);
    push_decimal(out, width);
    out.push(32u8);
    push_decimal(out, height);
    out.push(10u8);
    out.push(50u8);
    out.push(53u8);
    out.push(53u8);
    out.push(10u8);
    assert(out@ =~= old(out)@ + header_text(width as nat, height as nat));
}

/// Appends the line of one pixel.
pub fn push_pixel(out: &mut Vec<u8>, pixel: &Rgb)
    ensures
        final(out)@ == old(out)@ + pixel_text(*pixel),
{
    push_decimal(out, pixel.r() as usize);
    out.push(32u8);
    push_decimal(out, pixel.g() as usize);
    out.push(32u8);
    push_decimal(out, pixel.b() as usize);
    out.push(10u8);
    assert(out@ =~= old(out)@ + pixel_text(*pixel));
}

/// Writes a `width` by `height` image whose pixels are given row by row, in
/// the order in which they appear in the file. There is no image when the
/// number of pixels is not `width * height`.
pub fn encode_ppm(width: usize, height: usize, pixels: &Vec<Rgb>) -> (r: Option<Vec<u8>>)
    ensures
        r is None <==> pixels@.len() != width * height,
        r matches Some(bytes) ==> bytes@ == ppm_text(width as nat, height as nat, pixels@),
{
    let n: usize = pixels.len();
    match width.checked_mul(height) {
        None => {
            return None;
        },
        Some(count) => {
            if n != count {
                return None;
            }
        },
    }
    let mut out: Vec<u8> = Vec::new();
    header(&mut out, width, height);
    let mut k: usize = 0;
    while k < n
        invariant
            n == pixels@.len(),
            k <= n,
            out@ == header_text(width as nat, height as nat) + body_text(pixels@.subrange(0, k as int)),
        decreases n - k,
    {
        proof {
            assert(pixels@.subrange(0, k + 1).drop_last() =~= pixels@.subrange(0, k as int));
        }
        push_pixel(&mut out, &pixels[k]);
        k = k + 1;
        assert(out@ =~= header_text(width as nat, height as nat) + body_text(pixels@.subrange(0, k as int)));
    }
    assert(pixels@.subrange(0, n as int) =~= pixels@);
    Some(out)
}

} // verus!
