//! Verified core of a small blog backend: post listing and validation,
//! admin authentication (basic credentials and signed session tokens),
//! view de-duplication, and the framing of blurred thumbnails.

pub mod blur;
pub mod codecs;
pub mod errors;
pub mod posts;
pub mod text;
pub mod token;
pub mod user;
pub mod views;
