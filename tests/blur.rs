use blog::blur::{data_url, fetch_error, jpeg_data_url, load_image, FetchStage, JPEG_QUALITY};
use blog::errors::ServiceError;

#[test]
fn data_url_wraps_base64() {
    assert_eq!(data_url(&[1, 2, 3]), "data:image/jpeg;base64,AQID");
    assert_eq!(data_url(&[]), "data:image/jpeg;base64,");
    assert_eq!(data_url(&[1, 2]), "data:image/jpeg;base64,AQI=");
    assert_eq!(data_url(&[1]), "data:image/jpeg;base64,AQ==");
}

#[test]
fn fetch_failures_are_bad_requests() {
    assert_eq!(
        fetch_error(FetchStage::Download, "timeout"),
        ServiceError::BadRequest("이미지 다운로드 실패: timeout".to_string())
    );
    assert_eq!(
        fetch_error(FetchStage::ReadBody, "eof"),
        ServiceError::BadRequest("이미지 바이트 읽기 실패: eof".to_string())
    );
}

#[test]
fn undecodable_bytes_are_internal_errors() {
    let r = load_image(&[0, 1, 2, 3]);
    assert!(matches!(r, Err(ServiceError::InternalServerError(_))));
}

#[test]
fn picture_becomes_jpeg_data_url() {
    let img = image::DynamicImage::ImageRgb8(image::RgbImage::from_pixel(
        4,
        3,
        image::Rgb([200, 10, 10]),
    ));
    let url = jpeg_data_url(&img).unwrap();
    assert!(url.starts_with("data:image/jpeg;base64,/9j/"));
    assert_eq!(JPEG_QUALITY, 60);
}

#[test]
fn jpeg_round_trip_through_loader() {
    let img = image::DynamicImage::ImageRgb8(image::RgbImage::from_pixel(
        2,
        2,
        image::Rgb([0, 0, 255]),
    ));
    let mut buf = Vec::new();
    image::codecs::jpeg::JpegEncoder::new_with_quality(&mut buf, 90).encode_image(&img).unwrap();
    let back = load_image(&buf).unwrap();
    assert_eq!(back.width(), 2);
    assert_eq!(back.height(), 2);
}
