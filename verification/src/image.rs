//! Turns a rendered picture into the image set of an answer: the pixels are
//! packed as lossless WebP and written as a `data:` address.

use crate::entry::ImageSet;
use vstd::prelude::*;

verus! {

/// The room left free on each side of a picture, in pixels.
pub const MARGIN: u32 = 200;

/// The longest side that a picture can have to be packed.
pub const MAX_SIDE: u32 = 16383;

/// The size of the canvas for a picture: the picture with the margin on
/// every side, where that can be counted in 32 bits.
pub fn canvas_size(width: u32, height: u32) -> (size: Option<(u32, u32)>)
    ensures
        match size {
            Some((w, h)) => w == width + 2 * MARGIN && h == height + 2 * MARGIN,
            None => width + 2 * MARGIN > u32::MAX || height + 2 * MARGIN > u32::MAX,
        },
{
    let w = match width.checked_add(2 * MARGIN) {
        Some(w) => w,
        None => {
            return None;
        },
    };
    match height.checked_add(2 * MARGIN) {
        Some(h) => Some((w, h)),
        None => None,
    }
}

/// The bytes of the lossless WebP picture that the encoder makes of `rgba`,
/// the pixels of a picture of the given width and height, four bytes each.
pub uninterp spec fn webp_lossless(rgba: Seq<u8>, width: u32, height: u32) -> Seq<u8>;

/// The sixty-four characters of base 64, in the order of their values.
pub open spec fn alphabet() -> Seq<char> {
    "ABCDEFGHIJKLMNOPQRSTUVWXYZabcdefghijklmnopqrstuvwxyz0123456789+/"@
}

/// Bytes written in base 64 with the standard alphabet: three bytes give
/// four characters, and a last group of one or two bytes is filled up with
/// `=` signs.
pub open spec fn base64_text(bytes: Seq<u8>) -> Seq<char>
    decreases bytes.len(),
{
    if bytes.len() == 0 {
        Seq::empty()
    } else if bytes.len() == 1 {
        let a = bytes[0] as int;
        seq![alphabet()[a / 4], alphabet()[(a % 4) * 16], '=', '=']
    } else if bytes.len() == 2 {
        let a = bytes[0] as int;
        let b = bytes[1] as int;
        seq![alphabet()[a / 4], alphabet()[(a % 4) * 16 + b / 16], alphabet()[(b % 16) * 4], '=']
    } else {
        let a = bytes[0] as int;
        let b = bytes[1] as int;
        let c = bytes[2] as int;
        seq![
            alphabet()[a / 4],
            alphabet()[(a % 4) * 16 + b / 16],
            alphabet()[(b % 16) * 4 + c / 64],
            alphabet()[c % 64],
        ] + base64_text(bytes.skip(3))
    }
}

/// Whether a picture of this many bytes and this size can be packed: both
/// sides are between 1 and the longest side, and there are four bytes for
/// each pixel.
pub open spec fn packable(len: nat, width: u32, height: u32) -> bool {
    &&& 1 <= width <= MAX_SIDE
    &&& 1 <= height <= MAX_SIDE
    &&& len == 4 * width * height
}

/// Whether this many bytes can be written in base 64 without the count of
/// the characters leaving the machine's range.
pub open spec fn writable(len: nat) -> bool {
    len / 3 < usize::MAX / 4
}

/// The address that carries a WebP picture in itself.
pub open spec fn data_url(encoded: Seq<u8>) -> Seq<char> {
    "data:image/webp;base64,"@ + base64_text(encoded)
}

/// Packs pixels as lossless WebP.
///
/// Calls `webp::Encoder::from_rgba` and then `encode_lossless` on it. The
/// encoder reads `width * height * 4` bytes whatever the slice holds and
/// gives up on a side of 0 or of more than 16383, so the contract leaves
/// those pictures out. The result is named, not described.
#[verifier::external_body]
fn webp_pack(rgba: &[u8], width: u32, height: u32) -> (out: Vec<u8>)
    requires
        packable(rgba@.len(), width, height),
    ensures
        out@ == webp_lossless(rgba@, width, height),
{
    webp::Encoder::from_rgba(rgba, width, height).encode_lossless().to_vec()
}

/// Writes bytes in base 64.
///
/// Calls `base64::encode`, which uses the standard alphabet and fills the
/// last group with `=`. It stops the program where the number of characters
/// cannot be counted, so the contract leaves such inputs out.
#[verifier::external_body]
fn base64_write(bytes: &[u8]) -> (out: String)
    requires
        writable(bytes@.len()),
    ensures
        out@ == base64_text(bytes@),
{
    base64::encode(bytes)
}

/// Whether a picture of this many bytes and this size can be packed.
pub fn can_pack(len: usize, width: u32, height: u32) -> (ok: bool)
    ensures
        ok == packable(len as nat, width, height),
{
    if width < 1 || width > MAX_SIDE || height < 1 || height > MAX_SIDE {
        return false;
    }
    assert(0 <= width * height <= 16383 * 16383) by (nonlinear_arith)
        requires
            0 <= width <= 16383,
            0 <= height <= 16383,
    ;
    assert(4 * width * height == 4 * (width * height)) by (nonlinear_arith);
    let pixels: u64 = (width as u64) * (height as u64);
    let bytes: u64 = 4 * pixels;
    len as u64 == bytes
}

/// The image set of a picture already packed: its `data:` address, and no
/// vector form.
pub fn image_set_of(encoded: &[u8]) -> (images: ImageSet)
    requires
        writable(encoded@.len()),
    ensures
        images.svg is None,
        images.webp is Some,
        images.webp->0@ == data_url(encoded@),
{
    let mut url = String::from_str("data:image/webp;base64,");
    let written = base64_write(encoded);
    url.append(written.as_str());
    ImageSet { svg: None, webp: Some(url) }
}

/// The image set of a rendered picture: the pixels packed as lossless WebP
/// and written as a `data:` address. There is none where the packed picture
/// is too long to be written.
pub fn encode_image(rgba: &[u8], width: u32, height: u32) -> (images: Option<ImageSet>)
    requires
        packable(rgba@.len(), width, height),
    ensures
        match images {
            Some(set) => {
                &&& writable(webp_lossless(rgba@, width, height).len())
                &&& set.svg is None
                &&& set.webp is Some
                &&& set.webp->0@ == data_url(webp_lossless(rgba@, width, height))
            },
            None => !writable(webp_lossless(rgba@, width, height).len()),
        },
{
    let packed = webp_pack(rgba, width, height);
    if packed.len() / 3 < usize::MAX / 4 {
        Some(image_set_of(packed.as_slice()))
    } else {
        None
    }
}

} // verus!
