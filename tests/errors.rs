use blog::errors::ServiceError;

#[test]
fn status_codes_follow_error_kind() {
    assert_eq!(ServiceError::BadRequest("x".to_string()).status_code(), 400);
    assert_eq!(ServiceError::Unauthorized.status_code(), 401);
    assert_eq!(ServiceError::NotFound.status_code(), 404);
    assert_eq!(ServiceError::InternalServerError("db".to_string()).status_code(), 500);
}

#[test]
fn messages_hide_internal_detail() {
    assert_eq!(
        ServiceError::BadRequest("제목을 입력해주세요".to_string()).message(),
        "잘못된 요청: 제목을 입력해주세요"
    );
    assert_eq!(ServiceError::Unauthorized.message(), "권한이 없습니다");
    assert_eq!(ServiceError::NotFound.message(), "찾을 수 없습니다");
    assert_eq!(
        ServiceError::InternalServerError("connection refused".to_string()).message(),
        "서버 내부 오류"
    );
}
