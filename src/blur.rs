//! The verified frame around thumbnail blurring: decoding the fetched bytes,
//! encoding the blurred picture as JPEG, wrapping it as a data URL, and the
//! errors each step ends in. The blur itself works on floating point and is
//! applied by the caller between `load_image` and `jpeg_data_url`.

use vstd::prelude::*;
use crate::codecs::{b64_encode, b64_encoded, b64_shaped};
use crate::errors::ServiceError;

verus! {

/// image's decoded picture, carried through opaquely.
#[verifier::external_type_specification]
#[verifier::external_body]
pub struct ExDynamicImage(image::DynamicImage);

/// Whether `image::load_from_memory` accepts these bytes as a picture.
pub uninterp spec fn image_decodes(b: Seq<u8>) -> bool;

/// The bytes `JpegEncoder` writes for the picture at the quality, or `None`
/// where it refuses it.
pub uninterp spec fn jpeg_of(img: image::DynamicImage, quality: u8) -> Option<Seq<u8>>;

/// JPEG quality of the blurred thumbnail.
pub const JPEG_QUALITY: u8 = 60;

/// The head of a JPEG data URL.
pub open spec fn jpeg_data_prefix() -> Seq<char> {
    "data:image/jpeg;base64,"@
}

pub open spec fn download_failed() -> Seq<char> {
    "이미지 다운로드 실패: "@
}

pub open spec fn read_failed() -> Seq<char> {
    "이미지 바이트 읽기 실패: "@
}

/// A JPEG stream begins with the start-of-image marker.
pub open spec fn is_jpeg_stream(b: Seq<u8>) -> bool {
    b.len() >= 2 && b[0] == 0xFF && b[1] == 0xD8
}

/// Where fetching the source picture failed.
#[derive(Debug, Clone, Copy, PartialEq, Eq, Structural)]
pub enum FetchStage {
    /// The request was not answered.
    Download,
    /// The answer's body could not be read.
    ReadBody,
}

/// Relies on `image::load_from_memory`: decodes a picture in any enabled
/// format, or gives the decoder's error text; which of the two depends on the
/// bytes alone.
#[verifier::external_body]
fn decode_image(bytes: &[u8]) -> (r: Result<image::DynamicImage, String>)
    ensures
        r is Ok <==> image_decodes(bytes@),
{
    image::load_from_memory(bytes).map_err(|e| e.to_string())
}

/// Relies on `image::codecs::jpeg::JpegEncoder` (`new_with_quality`, then
/// `encode_image`): the JPEG bytes of the picture at the given quality, or
/// the encoder's error text. The output depends on the picture and quality
/// alone, and a finished stream opens with the start-of-image marker
/// `FF D8`, which `encode_image` writes first.
#[verifier::external_body]
fn encode_jpeg(img: &image::DynamicImage, quality: u8) -> (r: Result<Vec<u8>, String>)
    ensures
        r is Ok <==> jpeg_of(*img, quality) is Some,
        r is Ok ==> jpeg_of(*img, quality) == Some(r->Ok_0@),
        r is Ok ==> r->Ok_0@.len() >= 2 && r->Ok_0@[0] == 0xFF && r->Ok_0@[1] == 0xD8,
{
    let mut buf = Vec::new();
    let mut encoder = image::codecs::jpeg::JpegEncoder::new_with_quality(&mut buf, quality);
    match encoder.encode_image(img) {
        Ok(()) => Ok(buf),
        Err(e) => Err(e.to_string()),
    }
}

/// The error a failed fetch of the source picture ends in: the client's
/// input, with the upstream error text.
pub fn fetch_error(stage: FetchStage, detail: &str) -> (r: ServiceError)
    ensures
        stage == FetchStage::Download ==> (r matches ServiceError::BadRequest(m) && m@
            == download_failed() + detail@),
        stage == FetchStage::ReadBody ==> (r matches ServiceError::BadRequest(m) && m@
            == read_failed() + detail@),
{
    let mut m = match stage {
        FetchStage::Download => String::from_str("이미지 다운로드 실패: "),
        FetchStage::ReadBody => String::from_str("이미지 바이트 읽기 실패: "),
    };
    m.append(detail);
    ServiceError::BadRequest(m)
}

/// Decodes the fetched bytes; a picture that does not decode is an internal
/// error.
pub fn load_image(bytes: &[u8]) -> (r: Result<image::DynamicImage, ServiceError>)
    ensures
        r is Ok <==> image_decodes(bytes@),
        r matches Err(e) ==> e is InternalServerError,
{
    match decode_image(bytes) {
        Ok(img) => Ok(img),
        Err(text) => Err(ServiceError::InternalServerError(text)),
    }
}

/// Wraps JPEG bytes as a `data:` URL.
pub fn data_url(jpeg: &[u8]) -> (r: String)
    ensures
        r@ == jpeg_data_prefix() + b64_encoded(jpeg@),
        b64_shaped(b64_encoded(jpeg@), jpeg@.len()),
{
    let mut s = String::from_str("data:image/jpeg;base64,");
    let payload = b64_encode(jpeg);
    s.append(payload.as_str());
    s
}

/// Encodes the blurred picture as JPEG at `JPEG_QUALITY` and wraps it as a
/// data URL; an encoder failure is an internal error.
pub fn jpeg_data_url(img: &image::DynamicImage) -> (r: Result<String, ServiceError>)
    ensures
        r is Ok <==> jpeg_of(*img, JPEG_QUALITY) is Some,
        r matches Ok(s) ==> s@ == jpeg_data_prefix() + b64_encoded(
            jpeg_of(*img, JPEG_QUALITY)->Some_0,
        ),
        r is Ok ==> is_jpeg_stream(jpeg_of(*img, JPEG_QUALITY)->Some_0) && b64_shaped(
            b64_encoded(jpeg_of(*img, JPEG_QUALITY)->Some_0),
            jpeg_of(*img, JPEG_QUALITY)->Some_0.len(),
        ),
        r matches Err(e) ==> e is InternalServerError,
{
    match encode_jpeg(img, JPEG_QUALITY) {
        Ok(bytes) => {
            let s = data_url(bytes.as_slice());
            Ok(s)
        },
        Err(text) => Err(ServiceError::InternalServerError(text)),
    }
}

} // verus!
