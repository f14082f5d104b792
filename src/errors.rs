use vstd::prelude::*;

verus! {

/// The failures a request can end in; each maps to one HTTP status.
#[derive(Debug, Clone, PartialEq, Eq)]
pub enum ServiceError {
    /// The client's input was invalid; the message says why.
    BadRequest(String),
    /// The caller did not pass the admin check.
    Unauthorized,
    /// No row matched the requested id.
    NotFound,
    /// Storage, codec or upstream failure not attributable to the client.
    InternalServerError(String),
}

/// Prefix of the human-readable text of a `BadRequest`.
pub open spec fn bad_request_prefix() -> Seq<char> {
    "잘못된 요청: "@
}

/// The HTTP status of each kind of error.
pub open spec fn status_of(e: ServiceError) -> u16 {
    match e {
        ServiceError::BadRequest(_) => 400,
        ServiceError::Unauthorized => 401,
        ServiceError::NotFound => 404,
        ServiceError::InternalServerError(_) => 500,
    }
}

/// The text shown to the client in the `error` field of the response body.
pub open spec fn message_of(e: ServiceError) -> Seq<char> {
    match e {
        ServiceError::BadRequest(m) => bad_request_prefix() + m@,
        ServiceError::Unauthorized => "권한이 없습니다"@,
        ServiceError::NotFound => "찾을 수 없습니다"@,
        ServiceError::InternalServerError(_) => "서버 내부 오류"@,
    }
}

impl ServiceError {
    pub fn status_code(&self) -> (r: u16)
        ensures
            r == status_of(*self),
    {
        match self {
            ServiceError::BadRequest(_) => 400,
            ServiceError::Unauthorized => 401,
            ServiceError::NotFound => 404,
            ServiceError::InternalServerError(_) => 500,
        }
    }

    /// The human-readable message; an internal error never exposes its detail.
    pub fn message(&self) -> (r: String)
        ensures
            r@ == message_of(*self),
    {
        match self {
            ServiceError::BadRequest(m) => {
                let mut s = String::from_str("잘못된 요청: ");
                s.append(m.as_str());
                s
            },
            ServiceError::Unauthorized => String::from_str("권한이 없습니다"),
            ServiceError::NotFound => String::from_str("찾을 수 없습니다"),
            ServiceError::InternalServerError(_) => String::from_str("서버 내부 오류"),
        }
    }
}

} // verus!
