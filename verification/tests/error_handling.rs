use llm_gateway::error::{EngineError, ErrorResponse, HttpError};

const BACKUP_ERROR_MESSAGE: &str = "Failed to generate completions";

fn http_error_from_engine(code: u16) -> EngineError {
    EngineError::Http(HttpError {
        code,
        message: "custom error message".to_string(),
    })
}

fn other_error_from_engine() -> EngineError {
    EngineError::Other("Model not found: foo".to_string())
}

#[test]
fn test_http_error_response_from_anyhow() {
    let err = http_error_from_engine(400);
    let (status, response) = ErrorResponse::from_anyhow(err, BACKUP_ERROR_MESSAGE);
    assert_eq!(status, 400);
    assert_eq!(response.error, "custom error message");
}

#[test]
fn test_error_response_from_anyhow_out_of_range() {
    let err = http_error_from_engine(399);
    let (status, response) = ErrorResponse::from_anyhow(err, BACKUP_ERROR_MESSAGE);
    assert_eq!(status, 500);
    assert_eq!(response.error, "custom error message");

    let err = http_error_from_engine(500);
    let (status, response) = ErrorResponse::from_anyhow(err, BACKUP_ERROR_MESSAGE);
    assert_eq!(status, 500);
    assert_eq!(response.error, "custom error message");

    let err = http_error_from_engine(501);
    let (status, response) = ErrorResponse::from_anyhow(err, BACKUP_ERROR_MESSAGE);
    assert_eq!(status, 500);
    assert_eq!(response.error, "custom error message");
}

#[test]
fn test_other_error_response_from_anyhow() {
    let err = other_error_from_engine();
    let (status, response) = ErrorResponse::from_anyhow(err, BACKUP_ERROR_MESSAGE);
    assert_eq!(status, 500);
    assert_eq!(
        response.error,
        format!("{}: {}", BACKUP_ERROR_MESSAGE, "Model not found: foo")
    );
}

#[test]
fn test_http_error_teapot_passthrough() {
    let err = EngineError::Http(HttpError {
        code: 418,
        message: "teapot".to_string(),
    });
    let (status, response) = ErrorResponse::from_anyhow(err, BACKUP_ERROR_MESSAGE);
    assert_eq!(status, 418);
    assert_eq!(response.error, "teapot");
}

#[test]
fn test_fixed_error_responses() {
    let (status, response) = ErrorResponse::model_not_found();
    assert_eq!(status, 404);
    assert_eq!(response.error, "Model not found");

    let (status, response) = ErrorResponse::_service_unavailable();
    assert_eq!(status, 503);
    assert_eq!(response.error, "Service is not ready");

    let (status, response) = ErrorResponse::internal_server_error("boom");
    assert_eq!(status, 500);
    assert_eq!(response.error, "boom");
}

#[test]
fn test_error_response_from_http_error() {
    let (status, response) = ErrorResponse::from_http_error(HttpError {
        code: 404,
        message: "nope".to_string(),
    });
    assert_eq!(status, 404);
    assert_eq!(response.error, "nope");

    let body: ErrorResponse = HttpError {
        code: 410,
        message: "gone".to_string(),
    }
    .into();
    assert_eq!(body.error, "gone");
}
