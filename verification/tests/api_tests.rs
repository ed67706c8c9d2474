use whisperkey::api::{
    interpret_post_processing, interpret_transcription, ApiError, LLMChoice, LLMResponse,
    WhisperResponse,
};
use whisperkey::text::trim_str;

#[test]
fn transcription_success_returns_the_text() {
    let r = interpret_transcription(
        true,
        200,
        "{\"text\": \"Transcribed text.\"}".to_string(),
        Some(WhisperResponse { text: "Transcribed text.".to_string() }),
    );
    assert_eq!(r.unwrap(), "Transcribed text.");
}

#[test]
fn transcription_error_carries_status_and_body() {
    let r = interpret_transcription(false, 400, "Bad Request".to_string(), None);
    match r {
        Err(ApiError::EndpointStatus { status, body }) => {
            assert_eq!(status, 400);
            assert_eq!(body, "Bad Request");
        }
        other => panic!("expected a status error, got {:?}", other),
    }
}

#[test]
fn transcription_undecodable_success_body_is_malformed() {
    let r = interpret_transcription(true, 200, "not json".to_string(), None);
    assert!(matches!(r, Err(ApiError::MalformedResponse)));
}

#[test]
fn post_processing_success_returns_first_choice_trimmed() {
    let r = interpret_post_processing(
        true,
        200,
        String::new(),
        Some(LLMResponse {
            choices: vec![
                LLMChoice { text: " Cleaned up and formatted text. ".to_string() },
                LLMChoice { text: "A second candidate.".to_string() },
            ],
        }),
    );
    assert_eq!(r.unwrap(), "Cleaned up and formatted text.");
}

#[test]
fn post_processing_empty_choice_list_is_its_own_error() {
    let r = interpret_post_processing(
        true,
        200,
        String::new(),
        Some(LLMResponse { choices: vec![] }),
    );
    assert!(matches!(r, Err(ApiError::NoChoices)));
}

#[test]
fn post_processing_error_carries_status_and_body() {
    let r = interpret_post_processing(false, 500, "Internal Server Error".to_string(), None);
    match r {
        Err(ApiError::EndpointStatus { status, body }) => {
            assert_eq!(status, 500);
            assert_eq!(body, "Internal Server Error");
        }
        other => panic!("expected a status error, got {:?}", other),
    }
}

#[test]
fn post_processing_undecodable_success_body_is_malformed() {
    let r = interpret_post_processing(true, 200, "not json".to_string(), None);
    assert!(matches!(r, Err(ApiError::MalformedResponse)));
}

#[test]
fn trimming_strips_surrounding_whitespace_only() {
    assert_eq!(trim_str("  hello world \t\n"), "hello world");
    assert_eq!(trim_str("hello  world"), "hello  world");
    assert_eq!(trim_str("   "), "");
    assert_eq!(trim_str(""), "");
}
