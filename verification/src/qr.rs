//! A text as a QR code, drawn as a PNG image and written in base64 so that a
//! page can hold it inline.

use crate::error::ShareError;
use vstd::prelude::*;
use vstd::string::*;

verus! {

/// How much of a QR code may be damaged before it can no longer be read.
#[derive(Clone, Copy, Debug, PartialEq, Eq, Structural)]
pub enum QrLevel {
    Low,
    Medium,
    Quartile,
    High,
}

/// The side of the image in pixels.
pub const QR_IMAGE_SIZE: usize = 1024;

/// The bytes of the PNG image that `qrcode_generator::to_png_to_vec` draws of
/// `text` at the given level and side, or `None` where it reports an error.
pub uninterp spec fn qr_png(text: Seq<char>, level: QrLevel, size: usize) -> Option<Seq<u8>>;

/// The contents of an image that may be absent.
pub open spec fn spec_bytes(png: Option<Vec<u8>>) -> Option<Seq<u8>> {
    match png {
        Some(bytes) => Some(bytes@),
        None => None,
    }
}

/// The 64 characters of the standard base64 alphabet, in the order of their
/// values.
pub open spec fn base64_alphabet() -> Seq<char> {
    "ABCDEFGHIJKLMNOPQRSTUVWXYZabcdefghijklmnopqrstuvwxyz0123456789+/"@
}

/// The character that stands for a value of six bits.
pub open spec fn base64_digit(value: int) -> char
    recommends
        0 <= value < 64,
{
    base64_alphabet()[value]
}

/// The standard base64 text of a sequence of bytes, with padding: each group
/// of three bytes gives four characters, and a last group of one or two bytes
/// is filled up with `=`.
pub open spec fn base64_standard(bytes: Seq<u8>) -> Seq<char>
    decreases bytes.len(),
{
    if bytes.len() == 0 {
        Seq::empty()
    } else if bytes.len() == 1 {
        let a = bytes[0] as int;
        seq![base64_digit(a / 4), base64_digit(a % 4 * 16), '=', '=']
    } else if bytes.len() == 2 {
        let a = bytes[0] as int;
        let b = bytes[1] as int;
        seq![
            base64_digit(a / 4),
            base64_digit(a % 4 * 16 + b / 16),
            base64_digit(b % 16 * 4),
            '=',
        ]
    } else {
        let a = bytes[0] as int;
        let b = bytes[1] as int;
        let c = bytes[2] as int;
        seq![
            base64_digit(a / 4),
            base64_digit(a % 4 * 16 + b / 16),
            base64_digit(b % 16 * 4 + c / 64),
            base64_digit(c % 64),
        ] + base64_standard(bytes.skip(3))
    }
}

/// The inline form of an image: its base64 text, or an encoding error where
/// there is no image.
pub open spec fn spec_inline_image(png: Option<Seq<u8>>) -> Result<Seq<char>, ShareError> {
    match png {
        Some(bytes) => Ok(base64_standard(bytes)),
        None => Err(ShareError::EncodingError),
    }
}

/// The QR image of a text, inline: drawn at the low level on the fixed side.
pub open spec fn spec_qr_image(text: Seq<char>) -> Result<Seq<char>, ShareError> {
    spec_inline_image(qr_png(text, QrLevel::Low, QR_IMAGE_SIZE))
}

/// What a result holds, with the text taken as a sequence of characters.
pub open spec fn spec_text_result(r: Result<String, ShareError>) -> Result<Seq<char>, ShareError> {
    match r {
        Ok(text) => Ok(text@),
        Err(e) => Err(e),
    }
}

/// Calls `qrcode_generator::to_png_to_vec` on the text. The image that comes
/// back depends on the three arguments alone, so it has a name, `qr_png`;
/// every error of the call is reported as `None`. The call draws into a
/// buffer of `size * size` bytes, which must be a size that a vector can
/// have.
#[verifier::external_body]
fn render_png(text: &str, level: QrLevel, size: usize) -> (png: Option<Vec<u8>>)
    requires
        size * size <= isize::MAX,
    ensures
        spec_bytes(png) == qr_png(text@, level, size),
{
    let ecc = match level {
        QrLevel::Low => qrcode_generator::QrCodeEcc::Low,
        QrLevel::Medium => qrcode_generator::QrCodeEcc::Medium,
        QrLevel::Quartile => qrcode_generator::QrCodeEcc::Quartile,
        QrLevel::High => qrcode_generator::QrCodeEcc::High,
    };
    match qrcode_generator::to_png_to_vec(text, ecc, size) {
        Ok(bytes) => Some(bytes),
        Err(_) => None,
    }
}

/// Calls `encode` of base64's `STANDARD` engine: the standard alphabet with
/// padding. The call fails only where the length of the text does not fit
/// into `usize`, which no vector's length reaches: a vector holds at most
/// `isize::MAX` bytes.
#[verifier::external_body]
fn base64_text(bytes: &Vec<u8>) -> (text: String)
    ensures
        text@ == base64_standard(bytes@),
{
    base64::Engine::encode(&base64::engine::general_purpose::STANDARD, bytes)
}

/// The inline form of an image that was drawn, or the encoding error where
/// drawing failed.
pub fn inline_image(png: Option<Vec<u8>>) -> (image: Result<String, ShareError>)
    ensures
        spec_text_result(image) == spec_inline_image(spec_bytes(png)),
{
    match png {
        Some(bytes) => Ok(base64_text(&bytes)),
        None => Err(ShareError::EncodingError),
    }
}

/// Draws `text` as a QR code and returns the image inline, as the base64 text
/// of a PNG. A text that does not fit into a QR code gives
/// `ShareError::EncodingError`; nothing is cut off.
pub fn generate_qr_n64(text: String) -> (image: Result<String, ShareError>)
    ensures
        spec_text_result(image) == spec_qr_image(text@),
{
    inline_image(render_png(text.as_str(), QrLevel::Low, QR_IMAGE_SIZE))
}

/// The image of a text is fixed by the text: equal texts have equal images,
/// and equally fail.
pub proof fn lemma_qr_image_deterministic(a: Seq<char>, b: Seq<char>)
    requires
        a == b,
    ensures
        spec_qr_image(a) == spec_qr_image(b),
{
}

/// Encoding fails exactly where no image can be drawn, and then with
/// `EncodingError`; where an image is drawn, all of it is encoded.
pub proof fn lemma_qr_image_outcome(text: Seq<char>)
    ensures
        spec_qr_image(text) is Err <==> qr_png(text, QrLevel::Low, QR_IMAGE_SIZE) is None,
        spec_qr_image(text) is Err ==> spec_qr_image(text) == Err::<Seq<char>, ShareError>(
            ShareError::EncodingError,
        ),
        spec_qr_image(text) is Ok ==> spec_qr_image(text)->Ok_0 == base64_standard(
            qr_png(text, QrLevel::Low, QR_IMAGE_SIZE)->Some_0,
        ),
{
}

} // verus!
