//! Serialization of a linear-space framebuffer into the binary pixel-map
//! format: a three-line ASCII header, then one gamma-corrected byte triple
//! per pixel, row-major.

use vstd::prelude::*;
use crate::fx::{SCALE, fx_mul, fx_sqrt, fx_mul_spec, fx_sqrt_spec, lemma_fx_mul_bound, abs_i};
use vstd::arithmetic::div_mod::lemma_div_pos_is_pos;
use crate::vec3::Vec3;

verus! {

/// Scale factor from a gamma-space channel to a byte: 255.999, scaled.
pub const BYTE_SCALE: i64 = 16777150;

#[derive(Clone, Copy, Debug, PartialEq, Eq, Structural)]
pub enum PpmError {
    /// The framebuffer has no rows.
    EmptyImage,
    /// Two rows differ in length.
    InconsistentRows,
}

/// Linear-to-gamma correction: the square root of a positive channel, zero
/// otherwise.
pub open spec fn gamma_spec(x: int) -> int {
    if x > 0 {
        fx_sqrt_spec(x)
    } else {
        0
    }
}

/// Convert from a linear-space channel to a gamma-space channel.
pub fn linear_to_gamma(linear_value: i64) -> (r: i64)
    ensures
        r == gamma_spec(linear_value as int),
        0 <= r < 0x10000000000,
{
    if linear_value > 0 {
        return fx_sqrt(linear_value);
    }
    0
}

/// The byte a linear channel quantizes to: gamma-correct, scale by 255.999,
/// truncate, and saturate into [0, 255].
pub open spec fn byte_spec(x: int) -> u8 {
    let v = fx_mul_spec(gamma_spec(x), BYTE_SCALE as int) / (SCALE as int);
    if v > 255 {
        255u8
    } else {
        v as u8
    }
}

/// Quantize one linear channel to its output byte.
pub fn channel_byte(x: i64) -> (r: u8)
    ensures
        r == byte_spec(x as int),
{
    let g = linear_to_gamma(x);
    proof {
        lemma_fx_mul_bound(g as int, BYTE_SCALE as int, 0x10000000000, 16777150);
        assert(0 <= fx_mul_spec(g as int, BYTE_SCALE as int)) by {
            assert(g * BYTE_SCALE >= 0) by (nonlinear_arith)
                requires
                    g >= 0,
                    BYTE_SCALE > 0,
            ;
            lemma_div_pos_is_pos(abs_i(g as int * BYTE_SCALE as int), SCALE as int);
        }
    }
    let m = fx_mul(g, BYTE_SCALE);
    let v = ((m as u64) / 65536) as i64;
    if v > 255 {
        255
    } else {
        v as u8
    }
}

/// The decimal digits of a nonnegative number, in ASCII.
pub open spec fn dec_spec(n: int) -> Seq<u8>
    decreases n,
{
    if n < 10 {
        seq![(48 + n) as u8]
    } else {
        dec_spec(n / 10).push((48 + n % 10) as u8)
    }
}

/// Append the decimal digits of `n`.
fn push_dec(out: &mut Vec<u8>, n: usize)
    ensures
        final(out)@ == old(out)@ + dec_spec(n as int),
    decreases n,
{
    if n < 10 {
        out.push(48 + n as u8);
        proof {
            assert(out@ =~= old(out)@ + dec_spec(n as int));
        }
    } else {
        push_dec(out, n / 10);
        out.push(48 + (n % 10) as u8);
        proof {
            assert(out@ =~= old(out)@ + dec_spec(n as int));
        }
    }
}

/// The three-line header: the magic token, the dimensions, the maximum
/// channel value.
pub open spec fn header_spec(w: int, h: int) -> Seq<u8> {
    seq![80u8, 54u8, 10u8] + dec_spec(w) + seq![32u8] + dec_spec(h) + seq![10u8] + seq![
        50u8,
        53u8,
        53u8,
        10u8,
    ]
}

/// The bytes of one pixel: the three quantized channels.
pub open spec fn pixel_bytes_spec(p: Vec3) -> Seq<u8> {
    seq![byte_spec(p.x as int), byte_spec(p.y as int), byte_spec(p.z as int)]
}

/// The bytes of the first `n` pixels of a row.
pub open spec fn row_bytes_spec(row: Seq<Vec3>, n: nat) -> Seq<u8>
    decreases n,
{
    if n == 0 {
        Seq::empty()
    } else {
        row_bytes_spec(row, (n - 1) as nat) + pixel_bytes_spec(row[n - 1])
    }
}

/// The bytes of the first `n` rows of the framebuffer.
pub open spec fn image_bytes_spec(img: Seq<Vec<Vec3>>, n: nat) -> Seq<u8>
    decreases n,
{
    if n == 0 {
        Seq::empty()
    } else {
        image_bytes_spec(img, (n - 1) as nat) + row_bytes_spec(img[n - 1]@, img[n - 1]@.len())
    }
}

/// Every row as long as the first.
pub open spec fn rows_consistent(img: Seq<Vec<Vec3>>) -> bool {
    forall|k: int| 0 <= k < img.len() ==> (#[trigger] img[k])@.len() == img[0]@.len()
}

/// The whole stream: header, then the pixel bytes row-major.
pub open spec fn ppm_bytes_spec(img: Seq<Vec<Vec3>>) -> Seq<u8> {
    header_spec(img[0]@.len() as int, img.len() as int) + image_bytes_spec(img, img.len())
}

/// Serialize the framebuffer: reject an empty buffer or ragged rows, else
/// emit the header and every quantized pixel.
pub fn ppm_encode(image: &Vec<Vec<Vec3>>) -> (r: Result<Vec<u8>, PpmError>)
    ensures
        match r {
            Ok(bytes) => {
                &&& image@.len() > 0
                &&& rows_consistent(image@)
                &&& bytes@ == ppm_bytes_spec(image@)
            },
            Err(e) => {
                &&& (e == PpmError::EmptyImage <==> image@.len() == 0)
                &&& (e == PpmError::InconsistentRows <==> image@.len() > 0 && !rows_consistent(
                    image@,
                ))
            },
        },
{
    let height = image.len();
    if height == 0 {
        return Err(PpmError::EmptyImage);
    }
    let width = image[0].len();
    let mut k: usize = 0;
    while k < height
        invariant
            height == image@.len(),
            width == image@[0]@.len(),
            k <= height,
            forall|q: int| 0 <= q < k ==> (#[trigger] image@[q])@.len() == width as int,
        decreases height - k,
    {
        if image[k].len() != width {
            return Err(PpmError::InconsistentRows);
        }
        k = k + 1;
    }
    let mut bytes: Vec<u8> = Vec::new();
    bytes.push(80);
    bytes.push(54);
    bytes.push(10);
    proof {
        assert(bytes@ =~= seq![80u8, 54u8, 10u8]);
    }
    push_dec(&mut bytes, width);
    bytes.push(32);
    push_dec(&mut bytes, height);
    bytes.push(10);
    bytes.push(50);
    bytes.push(53);
    bytes.push(53);
    bytes.push(10);
    proof {
        assert(bytes@ =~= header_spec(width as int, height as int));
    }
    let ghost header = bytes@;
    let mut j: usize = 0;
    while j < height
        invariant
            height == image@.len(),
            width == image@[0]@.len(),
            rows_consistent(image@),
            j <= height,
            header == header_spec(width as int, height as int),
            bytes@ == header + image_bytes_spec(image@, j as nat),
        decreases height - j,
    {
        let row = &image[j];
        let mut i: usize = 0;
        while i < row.len()
            invariant
                height == image@.len(),
                j < height,
                row@ == image@[j as int]@,
                i <= row@.len(),
                bytes@ == header + image_bytes_spec(image@, j as nat) + row_bytes_spec(row@,
                    i as nat),
            decreases row@.len() - i,
        {
            let p = row[i];
            bytes.push(channel_byte(p.x));
            bytes.push(channel_byte(p.y));
            bytes.push(channel_byte(p.z));
            proof {
                assert(bytes@ =~= header + image_bytes_spec(image@, j as nat) + row_bytes_spec(
                    row@,
                    (i + 1) as nat,
                ));
            }
            i = i + 1;
        }
        proof {
            assert(bytes@ =~= header + image_bytes_spec(image@, (j + 1) as nat));
        }
        j = j + 1;
    }
    proof {
        assert(bytes@ =~= ppm_bytes_spec(image@));
    }
    Ok(bytes)
}

} // verus!
