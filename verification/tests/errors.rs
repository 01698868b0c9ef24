use perceptron::error::{ApiErrorDetail, ChatCompletionError, PerceptronError};

#[test]
fn from_request_failed() {
    let e = PerceptronError::from(ChatCompletionError::RequestFailed("timed out".to_string()));
    match e {
        PerceptronError::RequestFailed(msg) => assert_eq!(msg, "timed out"),
        other => panic!("expected RequestFailed, got {:?}", other),
    }
}

#[test]
fn from_api_error_keeps_status_and_detail() {
    let detail = ApiErrorDetail {
        message: "internal server error".to_string(),
        error_type: Some("server_error".to_string()),
        param: None,
        code: None,
    };
    let e = PerceptronError::from(ChatCompletionError::ApiError { status: 500, detail });
    match e {
        PerceptronError::ApiError { status, detail } => {
            assert_eq!(status, 500);
            assert_eq!(detail.message, "internal server error");
            assert_eq!(detail.error_type, Some("server_error".to_string()));
            assert_eq!(detail.param, None);
            assert_eq!(detail.code, None);
        }
        other => panic!("expected ApiError, got {:?}", other),
    }
}

#[test]
fn from_parse_failed() {
    let e = PerceptronError::from(ChatCompletionError::ParseFailed("bad json".to_string()));
    match e {
        PerceptronError::ParseFailed(msg) => assert_eq!(msg, "bad json"),
        other => panic!("expected ParseFailed, got {:?}", other),
    }
}
