//! Program icons: the pixel layout conversion, PNG encoding, and the data
//! URL the window shows.

use vstd::prelude::*;

verus! {

/// The message for a bitmap without a positive size.
pub open spec fn invalid_size_message() -> Seq<char> {
    "invalid icon bitmap size"@
}

/// The byte length of a `width` x `height` bitmap with 4 bytes per pixel,
/// or the refusal of a size that is not positive.
pub fn icon_buffer_len(width: i32, height: i32) -> (r: Result<usize, String>)
    requires
        width > 0 && height > 0 ==> width * height * 4 <= i32::MAX,
    ensures
        width <= 0 || height <= 0 ==> (r matches Err(e) && e@ == invalid_size_message()),
        width > 0 && height > 0 ==> r == Ok::<usize, String>((width * height * 4) as usize),
{
    if width <= 0 || height <= 0 {
        return Err(String::from_str("invalid icon bitmap size"));
    }
    assert(0 < width * height) by (nonlinear_arith)
        requires
            width > 0,
            height > 0,
    ;
    let n = width * height * 4;
    Ok(n as usize)
}

/// The bytes with the first and third byte of every complete 4-byte group
/// exchanged (BGRA to RGBA and back); a trailing partial group is kept.
pub open spec fn swap_red_blue(s: Seq<u8>) -> Seq<u8> {
    let whole = s.len() - s.len() % 4;
    Seq::new(
        s.len(),
        |i: int|
            if i >= whole {
                s[i]
            } else if i % 4 == 0 {
                s[i + 2]
            } else if i % 4 == 2 {
                s[i - 2]
            } else {
                s[i]
            },
    )
}

/// Turns BGRA pixels into RGBA pixels in place.
pub fn bgra_to_rgba(pixels: &mut Vec<u8>)
    ensures
        final(pixels)@ == swap_red_blue(old(pixels)@),
{
    let ghost start = pixels@;
    let n = pixels.len();
    let whole = n - n % 4;
    let mut i: usize = 0;
    while i < whole
        invariant
            n == start.len(),
            whole == n - n % 4,
            pixels@.len() == n,
            i % 4 == 0,
            i <= whole,
            forall|j: int| 0 <= j < i ==> #[trigger] pixels@[j] == swap_red_blue(start)[j],
            forall|j: int| i <= j < n ==> #[trigger] pixels@[j] == start[j],
        decreases whole - i,
    {
        assert(i + 4 <= whole) by (nonlinear_arith)
            requires
                i % 4 == 0,
                i < whole,
                whole % 4 == 0,
        {
        }
        let b = pixels[i];
        let r = pixels[i + 2];
        pixels.set(i, r);
        pixels.set(i + 2, b);
        assert forall|j: int| i <= j < i + 4 implies #[trigger] pixels@[j] == swap_red_blue(
            start,
        )[j] by {
            assert(j % 4 == j - i) by (nonlinear_arith)
                requires
                    i % 4 == 0,
                    i <= j < i + 4,
            {
            }
        }
        i = i + 4;
    }
    assert(pixels@ =~= swap_red_blue(start));
}

/// Exchanging red and blue twice gives the pixels back.
pub proof fn law_swap_red_blue_involution(s: Seq<u8>)
    ensures
        swap_red_blue(swap_red_blue(s)) == s,
{
    let t = swap_red_blue(s);
    let whole = s.len() - s.len() % 4;
    assert forall|i: int| 0 <= i < s.len() implies #[trigger] swap_red_blue(t)[i] == s[i] by {
        if i < whole {
            if i % 4 == 0 {
                assert((i + 2) % 4 == 2 && i + 2 < whole) by (nonlinear_arith)
                    requires
                        i % 4 == 0,
                        i < whole,
                        whole % 4 == 0,
                {
                }
            } else if i % 4 == 2 {
                assert((i - 2) % 4 == 0 && i - 2 >= 0) by (nonlinear_arith)
                    requires
                        i % 4 == 2,
                        i >= 0,
                {
                }
            }
        }
    }
    assert(swap_red_blue(t) =~= s);
}

/// The PNG file, RGBA with 8 bits per channel, that the `png` crate writes
/// for the given size and pixels.
pub uninterp spec fn png_rgba8(width: u32, height: u32, pixels: Seq<u8>) -> Seq<u8>;

/// Why the `png` crate refused to write an image, with its own message.
pub enum PngFailure {
    Header(String),
    Data(String),
}

/// Wraps `png::Encoder` (`new`, `set_color(Rgba)`, `set_depth(Eight)`,
/// `write_header`, `Writer::write_image_data`) writing into memory. A zero
/// width or height is refused at the header, and the image data is refused
/// when its length is not four bytes per pixel; otherwise, writing into
/// memory, encoding succeeds. The bytes that come back are the encoder's
/// output for exactly these arguments. The encoder computes the image's
/// byte size in `usize` and panics when it overflows, which `requires` rules
/// out.
#[verifier::external_body]
fn encode_png_rgba8(width: u32, height: u32, pixels: &[u8]) -> (r: Result<Vec<u8>, PngFailure>)
    requires
        4 * width * height <= usize::MAX,
    ensures
        width == 0 || height == 0 ==> r matches Err(PngFailure::Header(_)),
        width > 0 && height > 0 && pixels@.len() == 4 * width * height ==> r is Ok,
        r matches Ok(bytes) ==> bytes@ == png_rgba8(width, height, pixels@),
{
    let mut out: Vec<u8> = Vec::new();
    let mut enc = png::Encoder::new(&mut out, width, height);
    enc.set_color(png::ColorType::Rgba);
    enc.set_depth(png::BitDepth::Eight);
    let mut w = enc.write_header().map_err(|e| PngFailure::Header(e.to_string()))?;
    w.write_image_data(pixels).map_err(|e| PngFailure::Data(e.to_string()))?;
    drop(w);
    Ok(out)
}

/// Encodes a BGRA bitmap of the given (positive) size, whose byte size
/// fits in `i32` as the bitmap buffer's does, as an RGBA PNG file.
/// A failure carries the text of the encoder's refusal (`png_outcome`).
pub fn encode_icon_png(width: i32, height: i32, bgra: Vec<u8>) -> (r: Result<Vec<u8>, String>)
    requires
        width > 0,
        height > 0,
        width * height * 4 <= i32::MAX,
    ensures
        r matches Ok(bytes) ==> bytes@ == png_rgba8(width as u32, height as u32, swap_red_blue(
            bgra@,
        )),
        bgra@.len() == 4 * width * height ==> r is Ok,
        r matches Err(e) ==> exists|f: PngFailure| e@ == #[trigger] png_failure_text(f),
{
    let mut rgba = bgra;
    bgra_to_rgba(&mut rgba);
    assert(4 * (width as u32) * (height as u32) == width * height * 4) by (nonlinear_arith)
        requires
            width > 0,
            height > 0,
    ;
    png_outcome(encode_png_rgba8(width as u32, height as u32, rgba.as_slice()))
}

/// The message of a refused encoding: the stage that failed, then the
/// encoder's own words.
pub open spec fn png_failure_text(f: PngFailure) -> Seq<char> {
    match f {
        PngFailure::Header(m) => "png header failed: "@ + m@,
        PngFailure::Data(m) => "png write failed: "@ + m@,
    }
}

/// What the encoder's answer becomes for the caller: the PNG bytes, or the
/// message of the failure.
pub fn png_outcome(r: Result<Vec<u8>, PngFailure>) -> (out: Result<Vec<u8>, String>)
    ensures
        r matches Ok(b) ==> out == Ok::<Vec<u8>, String>(b),
        r matches Err(f) ==> (out matches Err(e) && e@ == png_failure_text(f)),
{
    match r {
        Ok(bytes) => Ok(bytes),
        Err(PngFailure::Header(m)) => {
            let mut e = String::from_str("png header failed: ");
            e.append(m.as_str());
            Err(e)
        },
        Err(PngFailure::Data(m)) => {
            let mut e = String::from_str("png write failed: ");
            e.append(m.as_str());
            Err(e)
        },
    }
}

/// The standard Base64 alphabet.
pub open spec fn b64_char(v: int) -> char {
    "ABCDEFGHIJKLMNOPQRSTUVWXYZabcdefghijklmnopqrstuvwxyz0123456789+/"@[v]
}

/// Standard Base64 with `=` padding (RFC 4648, section 4): each group of
/// three bytes becomes four characters of six bits each; a final group of
/// one or two bytes is padded.
pub open spec fn base64_standard(b: Seq<u8>) -> Seq<char>
    decreases b.len(),
{
    if b.len() == 0 {
        seq![]
    } else {
        let b0 = b[0] as int;
        let b1 = if b.len() > 1 {
            b[1] as int
        } else {
            0
        };
        let b2 = if b.len() > 2 {
            b[2] as int
        } else {
            0
        };
        let c0 = b64_char(b0 / 4);
        let c1 = b64_char((b0 % 4) * 16 + b1 / 16);
        let c2 = b64_char((b1 % 16) * 4 + b2 / 64);
        let c3 = b64_char(b2 % 64);
        if b.len() == 1 {
            seq![c0, c1, '=', '=']
        } else if b.len() == 2 {
            seq![c0, c1, c2, '=']
        } else {
            seq![c0, c1, c2, c3] + base64_standard(b.skip(3))
        }
    }
}

/// Wraps `Engine::encode` of `base64::engine::general_purpose::STANDARD`
/// (standard alphabet, padded): the result is the standard Base64 of the
/// input. The crate panics when the output length overflows `usize`, which
/// `requires` rules out.
#[verifier::external_body]
fn base64_encode(input: &[u8]) -> (r: String)
    requires
        input@.len() / 3 * 4 + 4 <= usize::MAX,
    ensures
        r@ == base64_standard(input@),
{
    base64::Engine::encode(&base64::engine::general_purpose::STANDARD, input)
}

/// `data:image/png;base64,<Base64 of the PNG bytes>`.
pub open spec fn png_data_url_spec(png: Seq<u8>) -> Seq<char> {
    "data:image/png;base64,"@ + base64_standard(png)
}

/// The data URL that shows an icon file's bytes, or `None` when the file
/// could not be read.
pub fn icon_data_url(file_bytes: Option<Vec<u8>>) -> (r: Option<String>)
    requires
        file_bytes matches Some(b) ==> b@.len() / 3 * 4 + 4 <= usize::MAX,
    ensures
        file_bytes is None ==> r is None,
        file_bytes matches Some(b) ==> (r matches Some(u) && u@ == png_data_url_spec(b@)),
{
    match file_bytes {
        None => None,
        Some(bytes) => {
            let b64 = base64_encode(bytes.as_slice());
            let mut url = String::from_str("data:image/png;base64,");
            url.append(b64.as_str());
            Some(url)
        },
    }
}

} // verus!
