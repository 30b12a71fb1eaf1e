//! The raster: which pixel comes where in the output, and the plain-text PPM
//! encoding of 8-bit channel values.
//!
//! Pixel `(i, j)` has column `i` counted from the left and row `j` counted from
//! the bottom, as the camera's image-plane coordinates run. The image is written
//! top row first, each row left to right.
use vstd::prelude::*;

verus! {

/// One pixel's channel values, each meant to lie in `[0, 255]`.
#[derive(Debug, Clone, Copy, PartialEq, Eq, Structural)]
pub struct Rgb {
    pub r: u32,
    pub g: u32,
    pub b: u32,
}

/// The column of the `k`-th pixel written.
pub open spec fn column_of(k: int, width: int) -> int {
    k % width
}

/// The row, counted from the bottom, of the `k`-th pixel written.
pub open spec fn row_of(k: int, width: int, height: int) -> int {
    height - 1 - k / width
}

/// Returns `(i, j)` of the `k`-th pixel in output order.
pub fn pixel_at(k: usize, width: usize, height: usize) -> (r: (usize, usize))
    requires
        width > 0,
        k < width * height,
    ensures
        r.0 as int == column_of(k as int, width as int),
        r.1 as int == row_of(k as int, width as int, height as int),
        r.0 < width,
        r.1 < height,
{
    proof {
        assert(k / width < height) by (nonlinear_arith)
            requires
                width > 0,
                k < width * height,
        ;
    }
    (k % width, height - 1 - k / width)
}

/// The position in output order of pixel `(i, j)`.
pub fn output_index(i: usize, j: usize, width: usize, height: usize) -> (k: usize)
    requires
        i < width,
        j < height,
        width * height <= usize::MAX,
    ensures
        k < width * height,
        column_of(k as int, width as int) == i,
        row_of(k as int, width as int, height as int) == j,
{
    let row = height - 1 - j;
    proof {
        assert(row * width + i < width * height) by (nonlinear_arith)
            requires
                row < height,
                i < width,
        ;
        assert((row * width + i) % (width as int) == i && (row * width + i) / (width as int) == row)
            by (nonlinear_arith)
            requires
                i < width,
                0 <= row,
        ;
    }
    row * width + i
}

/// Output order runs top row first and left to right within a row: of two
/// pixels, the one written earlier lies in a higher row, or in the same row
/// further left.
pub proof fn lemma_raster_order(k1: int, k2: int, width: int, height: int)
    requires
        width > 0,
        0 <= k1 < k2 < width * height,
    ensures
        row_of(k1, width, height) > row_of(k2, width, height) || (row_of(k1, width, height)
            == row_of(k2, width, height) && column_of(k1, width) < column_of(k2, width)),
        0 <= column_of(k1, width) < width,
        0 <= row_of(k1, width, height) < height,
{
    assert(k1 / width <= k2 / width) by (nonlinear_arith)
        requires
            width > 0,
            0 <= k1 < k2,
    ;
    assert(k1 / width == k2 / width ==> k1 % width < k2 % width) by (nonlinear_arith)
        requires
            width > 0,
            0 <= k1 < k2,
    ;
    assert(k1 / width < height) by (nonlinear_arith)
        requires
            width > 0,
            0 <= k1 < width * height,
    ;
}

/// The ASCII code of decimal digit `d`.
pub open spec fn digit_char(d: nat) -> u8 {
    (d + 48) as u8
}

/// The decimal digits of `n`, most significant first, without leading zeros.
pub open spec fn decimal(n: nat) -> Seq<u8>
    decreases n,
{
    if n < 10 {
        seq![digit_char(n)]
    } else {
        decimal(n / 10).push(digit_char(n % 10))
    }
}

/// The number that a string of ASCII decimal digits stands for.
pub open spec fn value_of(digits: Seq<u8>) -> nat
    decreases digits.len(),
{
    if digits.len() == 0 {
        0
    } else {
        value_of(digits.drop_last()) * 10 + ((digits.last() - 48) as nat)
    }
}

/// `decimal(n)` is a string of ASCII digits that reads back as `n`.
pub proof fn lemma_decimal_reads_back(n: nat)
    ensures
        value_of(decimal(n)) == n,
        decimal(n).len() > 0,
        forall|i: int| 0 <= i < decimal(n).len() ==> 48 <= #[trigger] decimal(n)[i] <= 57,
    decreases n,
{
    if n >= 10 {
        lemma_decimal_reads_back(n / 10);
        let d = decimal(n);
        assert(d.drop_last() =~= decimal(n / 10));
        assert(d.last() == digit_char(n % 10));
        assert((n / 10) * 10 + n % 10 == n);
        assert(d.last() - 48 == n % 10);
        assert(value_of(d) == value_of(decimal(n / 10)) * 10 + n % 10);
        assert forall|i: int| 0 <= i < d.len() implies 48 <= #[trigger] d[i] <= 57 by {
            if i < d.len() - 1 {
                assert(d[i] == decimal(n / 10)[i]);
            }
        }
    } else {
        assert(decimal(n).drop_last() =~= Seq::<u8>::empty());
        assert(value_of(Seq::<u8>::empty()) == 0);
        assert(decimal(n).last() - 48 == n);
    }
}

/// The ASCII codes that the encoding uses besides digits.
pub const SPACE: u8 = 32;

pub const NEWLINE: u8 = 10;

pub const LETTER_P: u8 = 80;

pub const DIGIT_THREE: u8 = 51;

/// The format tag of plain-text PPM, the width, the height and the largest
/// channel value 255, separated by spaces, and a line break.
pub open spec fn ppm_header(width: nat, height: nat) -> Seq<u8> {
    seq![LETTER_P, DIGIT_THREE, SPACE] + decimal(width) + seq![SPACE] + decimal(height) + seq![
        SPACE,
    ] + decimal(255) + seq![NEWLINE]
}

/// `<r> <g> <b>` and a line break.
pub open spec fn ppm_pixel(p: Rgb) -> Seq<u8> {
    decimal(p.r as nat) + seq![SPACE] + decimal(p.g as nat) + seq![SPACE] + decimal(p.b as nat)
        + seq![NEWLINE]
}

/// The pixel lines, one per pixel, in the order given.
pub open spec fn ppm_body(pixels: Seq<Rgb>) -> Seq<u8>
    decreases pixels.len(),
{
    if pixels.len() == 0 {
        Seq::empty()
    } else {
        ppm_body(pixels.drop_last()) + ppm_pixel(pixels.last())
    }
}

/// The whole file for an image of `width` by `height` pixels.
pub open spec fn ppm(width: nat, height: nat, pixels: Seq<Rgb>) -> Seq<u8> {
    ppm_header(width, height) + ppm_body(pixels)
}

/// Appends the decimal digits of `n`.
pub fn push_decimal(out: &mut Vec<u8>, n: u32)
    ensures
        final(out)@ == old(out)@ + decimal(n as nat),
    decreases n,
{
    if n >= 10 {
        push_decimal(out, n / 10);
    }
    out.push((n % 10) as u8 + 48);
    proof {
        assert(old(out)@ + decimal(n as nat) =~= final(out)@);
    }
}

fn push_bytes(out: &mut Vec<u8>, bytes: &[u8])
    ensures
        final(out)@ == old(out)@ + bytes@,
{
    let mut i: usize = 0;
    while i < bytes.len()
        invariant
            i <= bytes@.len(),
            out@ == old(out)@ + bytes@.subrange(0, i as int),
        decreases bytes@.len() - i,
    {
        out.push(bytes[i]);
        i = i + 1;
        assert(out@ =~= old(out)@ + bytes@.subrange(0, i as int));
    }
    assert(bytes@.subrange(0, i as int) =~= bytes@);
}

/// Appends the line of one pixel.
pub fn push_pixel(out: &mut Vec<u8>, p: Rgb)
    ensures
        final(out)@ == old(out)@ + ppm_pixel(p),
{
    push_decimal(out, p.r);
    out.push(SPACE);
    push_decimal(out, p.g);
    out.push(SPACE);
    push_decimal(out, p.b);
    out.push(NEWLINE);
    assert(final(out)@ =~= old(out)@ + ppm_pixel(p));
}

/// Encodes an image as plain-text PPM: the header, then one line per pixel in
/// the order given (which `pixel_at` fixes).
pub fn encode_ppm(width: u32, height: u32, pixels: &Vec<Rgb>) -> (out: Vec<u8>)
    ensures
        out@ == ppm(width as nat, height as nat, pixels@),
{
    let mut out: Vec<u8> = Vec::new();
    push_bytes(&mut out, &[LETTER_P, DIGIT_THREE, SPACE]);
    push_decimal(&mut out, width);
    out.push(SPACE);
    push_decimal(&mut out, height);
    out.push(SPACE);
    push_decimal(&mut out, 255);
    out.push(NEWLINE);
    assert(out@ =~= ppm_header(width as nat, height as nat));
    let mut i: usize = 0;
    while i < pixels.len()
        invariant
            i <= pixels@.len(),
            out@ == ppm_header(width as nat, height as nat) + ppm_body(pixels@.subrange(0, i as int)),
        decreases pixels@.len() - i,
    {
        let ghost before = out@;
        push_pixel(&mut out, pixels[i]);
        proof {
            let next = pixels@.subrange(0, i + 1);
            assert(next.drop_last() =~= pixels@.subrange(0, i as int));
            assert(next.last() == pixels@[i as int]);
        }
        i = i + 1;
        assert(out@ =~= ppm_header(width as nat, height as nat) + ppm_body(pixels@.subrange(0, i as int)));
    }
    assert(pixels@.subrange(0, i as int) =~= pixels@);
    out
}

} // verus!
