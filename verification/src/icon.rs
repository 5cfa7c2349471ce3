use vstd::prelude::*;

verus! {

/// `image::ImageError`, the error of the PNG encoder.
#[verifier::external_type_specification]
#[verifier::external_body]
pub struct ExImageError(image::ImageError);

/// The PNG file that the `image` crate writes for a `width` x `height`
/// RGBA image with 8 bits per channel given row by row in `pixels`
/// (`None` when the encoder refuses it).
pub uninterp spec fn png_rgba8(pixels: Seq<u8>, width: u32, height: u32) -> Option<Seq<u8>>;

/// The character of a six-bit value in the standard base64 alphabet
/// (`A-Z a-z 0-9 + /`).
pub open spec fn base64_digit(v: int) -> char {
    if v < 26 {
        (65 + v) as char
    } else if v < 52 {
        (97 + v - 26) as char
    } else if v < 62 {
        (48 + v - 52) as char
    } else if v == 62 {
        '+'
    } else {
        '/'
    }
}

/// The standard base64 text of `bytes` (RFC 4648, padded with `=`): each
/// group of three bytes becomes four characters, six bits each, most
/// significant first; a final group of one or two bytes is padded.
pub open spec fn base64_standard(bytes: Seq<u8>) -> Seq<char>
    decreases bytes.len(),
{
    if bytes.len() == 0 {
        Seq::<char>::empty()
    } else if bytes.len() == 1 {
        let a = bytes[0] as int;
        seq![base64_digit(a / 4), base64_digit((a % 4) * 16), '=', '=']
    } else if bytes.len() == 2 {
        let a = bytes[0] as int;
        let b = bytes[1] as int;
        seq![base64_digit(a / 4), base64_digit((a % 4) * 16 + b / 16), base64_digit((b % 16) * 4), '=']
    } else {
        let a = bytes[0] as int;
        let b = bytes[1] as int;
        let c = bytes[2] as int;
        seq![
            base64_digit(a / 4),
            base64_digit((a % 4) * 16 + b / 16),
            base64_digit((b % 16) * 4 + c / 64),
            base64_digit(c % 64),
        ] + base64_standard(bytes.skip(3))
    }
}

/// Encodes an RGBA image as PNG with `image::write_buffer_with_format`.
/// Claimed: the result is the PNG named by `png_rgba8` on these
/// arguments, and an error exactly when that name gives none. The buffer
/// must hold exactly four bytes per pixel, else the encoder panics.
#[verifier::external_body]
fn write_png_rgba8(pixels: &[u8], width: u32, height: u32) -> (r: Result<Vec<u8>, image::ImageError>)
    requires
        pixels@.len() == 4 * (width as int) * (height as int),
    ensures
        match r {
            Ok(v) => png_rgba8(pixels@, width, height) == Some(v@),
            Err(_) => png_rgba8(pixels@, width, height) is None,
        },
{
    let mut cursor = std::io::Cursor::new(Vec::new());
    match image::write_buffer_with_format(
        &mut cursor,
        pixels,
        width,
        height,
        image::ExtendedColorType::Rgba8,
        image::ImageFormat::Png,
    ) {
        Ok(()) => Ok(cursor.into_inner()),
        Err(e) => Err(e),
    }
}

/// Encodes bytes as base64 with `base64::Engine::encode` on the
/// `STANDARD` engine. Claimed: the standard padded base64 text of the
/// bytes, as `base64_standard` defines it, four characters for every
/// started group of three bytes. The encoder panics when that length does
/// not fit in `usize`.
#[verifier::external_body]
fn encode_base64(bytes: &[u8]) -> (s: String)
    requires
        (bytes@.len() + 2) / 3 * 4 <= usize::MAX,
    ensures
        s@ == base64_standard(bytes@),
        s@.len() == (bytes@.len() + 2) / 3 * 4,
{
    base64::Engine::encode(&base64::engine::general_purpose::STANDARD, bytes)
}

/// Whether some complete pixel of a 4-byte-per-pixel buffer has a
/// non-zero fourth (alpha) byte.
pub open spec fn any_alpha(px: Seq<u8>) -> bool {
    exists|p: int| 0 <= p < px.len() / 4 && #[trigger] alpha_of(px, p) > 0
}

/// The fourth byte of pixel `p`.
pub open spec fn alpha_of(px: Seq<u8>, p: int) -> u8 {
    px[4 * p + 3]
}

/// The buffer read back from the window icon (blue, green, red, alpha per
/// pixel) in red, green, blue, alpha order; when no pixel carries alpha,
/// every pixel is made opaque. Trailing bytes of an incomplete pixel stay.
pub open spec fn icon_rgba(px: Seq<u8>) -> Seq<u8> {
    Seq::new(
        px.len(),
        |i: int|
            if i >= px.len() / 4 * 4 {
                px[i]
            } else if i % 4 == 0 {
                px[i + 2]
            } else if i % 4 == 2 {
                px[i - 2]
            } else if i % 4 == 3 && !any_alpha(px) {
                255u8
            } else {
                px[i]
            },
    )
}

/// Reorders icon pixels to RGBA in place (see `icon_rgba`).
pub fn bgra_to_rgba(pixels: &mut Vec<u8>)
    ensures
        final(pixels)@ == icon_rgba(old(pixels)@),
{
    let n = pixels.len() / 4;
    let ghost orig = pixels@;
    assert(4 * n <= orig.len());
    let mut has_alpha = false;
    let mut p: usize = 0;
    while p < n
        invariant
            n == orig.len() / 4,
            4 * n <= orig.len(),
            orig.len() <= usize::MAX,
            p <= n,
            pixels@.len() == orig.len(),
            has_alpha == exists|q: int| 0 <= q < p && #[trigger] alpha_of(orig, q) > 0,
            forall|i: int| 0 <= i < 4 * p ==> #[trigger] pixels@[i] == (if i % 4 == 0 {
                orig[i + 2]
            } else if i % 4 == 2 {
                orig[i - 2]
            } else {
                orig[i]
            }),
            forall|i: int| 4 * p <= i < orig.len() ==> #[trigger] pixels@[i] == orig[i],
        decreases n - p,
    {
        let b = pixels[4 * p];
        let r = pixels[4 * p + 2];
        pixels.set(4 * p, r);
        pixels.set(4 * p + 2, b);
        if pixels[4 * p + 3] > 0 {
            has_alpha = true;
        }
        proof {
            assert(alpha_of(orig, p as int) == orig[4 * p + 3]);
        }
        proof {
            assert forall|i: int| 0 <= i < 4 * (p + 1) implies #[trigger] pixels@[i] == (if i % 4 == 0 {
                orig[i + 2]
            } else if i % 4 == 2 {
                orig[i - 2]
            } else {
                orig[i]
            }) by {
                if i >= 4 * p {
                    assert(i == 4 * p || i == 4 * p + 1 || i == 4 * p + 2 || i == 4 * p + 3);
                }
            }
        }
        p = p + 1;
    }
    if !has_alpha {
        let mut q: usize = 0;
        while q < n
            invariant
                n == orig.len() / 4,
                4 * n <= orig.len(),
                orig.len() <= usize::MAX,
                q <= n,
                pixels@.len() == orig.len(),
                !any_alpha(orig),
                forall|i: int| 0 <= i < 4 * q ==> #[trigger] pixels@[i] == icon_rgba(orig)[i],
                forall|i: int| 4 * q <= i < 4 * n ==> #[trigger] pixels@[i] == (if i % 4 == 0 {
                    orig[i + 2]
                } else if i % 4 == 2 {
                    orig[i - 2]
                } else {
                    orig[i]
                }),
                forall|i: int| 4 * n <= i < orig.len() ==> #[trigger] pixels@[i] == orig[i],
            decreases n - q,
        {
            pixels.set(4 * q + 3, 255);
            proof {
                assert forall|i: int| 0 <= i < 4 * (q + 1) implies #[trigger] pixels@[i] == icon_rgba(orig)[i] by {
                    if i >= 4 * q {
                        assert(i == 4 * q || i == 4 * q + 1 || i == 4 * q + 2 || i == 4 * q + 3);
                    }
                }
            }
            q = q + 1;
        }
    }
    proof {
        assert(pixels@ =~= icon_rgba(orig));
    }
}

/// Whether a buffer of `len` bytes can hold a `width` x `height` RGBA
/// image, its size computed without overflow (as `ImageBuffer::from_raw`
/// checks).
pub open spec fn rgba_fits(width: u32, height: u32, len: int) -> bool {
    4 * (width as int) * (height as int) <= usize::MAX && 4 * (width as int) * (height as int) <= len
}

/// The PNG of an icon: its pixels reordered to RGBA, as many as the size
/// calls for, encoded; `None` when the buffer is too small.
pub open spec fn icon_png(width: u32, height: u32, pixels: Seq<u8>) -> Option<Seq<u8>> {
    if rgba_fits(width, height, pixels.len() as int) {
        png_rgba8(icon_rgba(pixels).take(4 * (width as int) * (height as int)), width, height)
    } else {
        None
    }
}

/// Whether the base64 text of `n` bytes has a length that fits in `usize`.
pub open spec fn base64_fits(n: nat) -> bool {
    (n + 2) / 3 * 4 <= usize::MAX
}

/// The icon of a window as base64 PNG text, from the raw pixels read off
/// its bitmap (blue, green, red, alpha per pixel): `None` when the buffer
/// is too small for the stated size or the encoder refuses the image.
pub fn icon_pixels_to_png_base64(width: u32, height: u32, pixels: Vec<u8>) -> (r: Option<String>)
    ensures
        r is Some <==> (icon_png(width, height, pixels@) matches Some(png) && base64_fits(png.len())),
        r matches Some(s) ==> s@ == base64_standard(icon_png(width, height, pixels@).unwrap()),
{
    let mut px = pixels;
    bgra_to_rgba(&mut px);
    let w = width as u128;
    let h = height as u128;
    proof {
        assert(w * h <= 0xffff_ffffu128 * 0xffff_ffffu128) by (nonlinear_arith)
            requires
                w <= 0xffff_ffffu128,
                h <= 0xffff_ffffu128,
        ;
    }
    let total: u128 = 4 * (w * h);
    proof {
        assert(total == 4 * (width as int) * (height as int)) by (nonlinear_arith)
            requires
                total == 4 * (w * h),
                w == width,
                h == height,
        ;
    }
    if total > usize::MAX as u128 || total > px.len() as u128 {
        return None;
    }
    let size = total as usize;
    let image_bytes = crate::text::take_bytes(&px, size);
    match write_png_rgba8(image_bytes.as_slice(), width, height) {
        Ok(png) => {
            let n = png.len() as u128;
            if (n + 2) / 3 * 4 > usize::MAX as u128 {
                return None;
            }
            Some(encode_base64(png.as_slice()))
        },
        Err(_) => None,
    }
}

} // verus!
