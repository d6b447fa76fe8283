use axum::http::StatusCode;
use msb_cloud_adapter::error::{
    with_local_backend, ApiError, BackendError, BackendErrorKind, HttpStatus, ProtocolError,
};

fn backend(kind: BackendErrorKind, message: &str) -> BackendError {
    BackendError { kind, message: message.to_string() }
}

#[test]
fn backend_failures_map_to_status_and_code() {
    for (kind, status, code) in [
        (BackendErrorKind::SandboxNotFound, StatusCode::NOT_FOUND, "sandbox_not_found"),
        (BackendErrorKind::SandboxAlreadyExists, StatusCode::CONFLICT, "sandbox_already_exists"),
        (BackendErrorKind::SandboxStillRunning, StatusCode::CONFLICT, "sandbox_still_running"),
        (BackendErrorKind::VolumeNotFound, StatusCode::NOT_FOUND, "volume_not_found"),
        (BackendErrorKind::VolumeAlreadyExists, StatusCode::CONFLICT, "volume_already_exists"),
        (BackendErrorKind::InvalidConfig, StatusCode::BAD_REQUEST, "invalid_config"),
        (BackendErrorKind::Unsupported, StatusCode::BAD_REQUEST, "unsupported"),
        (BackendErrorKind::ExecTimeout, StatusCode::REQUEST_TIMEOUT, "exec_timeout"),
        (BackendErrorKind::Other, StatusCode::INTERNAL_SERVER_ERROR, "internal"),
    ] {
        let (number, body) = ApiError::from(backend(kind, "what happened")).into_response();
        assert_eq!(number, status.as_u16());
        assert_eq!(body.error.code, code);
        assert_eq!(body.error.message, "what happened");
    }
}

#[test]
fn status_numbers() {
    assert_eq!(HttpStatus::BadRequest.as_u16(), StatusCode::BAD_REQUEST.as_u16());
    assert_eq!(HttpStatus::Unauthorized.as_u16(), StatusCode::UNAUTHORIZED.as_u16());
    assert_eq!(HttpStatus::NotFound.as_u16(), 404);
    assert_eq!(HttpStatus::RequestTimeout.as_u16(), 408);
    assert_eq!(HttpStatus::Conflict.as_u16(), 409);
    assert_eq!(HttpStatus::InternalServerError.as_u16(), 500);
}

#[test]
fn json_failures_carry_their_own_text() {
    let error = serde_json::from_str::<u32>("\"x\"").unwrap_err();
    let text = error.to_string();
    assert!(!text.is_empty());
    let refusal = ApiError::from(error);
    assert_eq!(refusal.status, HttpStatus::InternalServerError);
    assert_eq!(refusal.code, "json");
    assert_eq!(refusal.message, text);
    let other = ApiError::json("cannot write".to_string());
    assert_eq!(other.message, "cannot write");
}

#[test]
fn protocol_failures_are_bad_requests() {
    let refusal = ApiError::from(ProtocolError { message: "bad frame".to_string() });
    assert_eq!(refusal.status, HttpStatus::BadRequest);
    assert_eq!(refusal.code, "protocol");
    assert_eq!(refusal.message, "bad frame");
}

#[test]
fn missing_sandbox_is_told_apart() {
    assert!(ApiError::from(backend(BackendErrorKind::SandboxNotFound, "s")).is_sandbox_not_found());
    assert!(!ApiError::from(backend(BackendErrorKind::VolumeNotFound, "v")).is_sandbox_not_found());
    let other = ApiError {
        status: HttpStatus::Conflict,
        code: "sandbox_not_found",
        message: String::new(),
    };
    assert!(!other.is_sandbox_not_found());
}

#[test]
fn backend_outcomes_are_passed_on() {
    assert_eq!(with_local_backend::<u8>(Ok(7)).unwrap(), 7);
    let refused = with_local_backend::<u8>(Err(backend(BackendErrorKind::ExecTimeout, "slow")));
    let refusal = refused.unwrap_err();
    assert_eq!(refusal.code, "exec_timeout");
    assert_eq!(refusal.message, "slow");
}
