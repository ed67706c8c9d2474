use vstd::prelude::*;

verus! {

use crate::text::spec_trimmed;
use crate::text::trim_str;

/// The decoded body of a successful transcription response.
#[derive(Debug)]
pub struct WhisperResponse {
    pub text: String,
}

/// One candidate the post-processing endpoint returned.
#[derive(Debug)]
pub struct LLMChoice {
    pub text: String,
}

/// The decoded body of a successful post-processing response.
#[derive(Debug)]
pub struct LLMResponse {
    pub choices: Vec<LLMChoice>,
}

/// Why a remote call produced no usable text.
#[derive(Debug)]
pub enum ApiError {
    /// The request never yielded a response.
    Transport { detail: String },
    /// A success status arrived but its body did not decode.
    MalformedResponse,
    /// The endpoint answered with a non-success status and a body message.
    EndpointStatus { status: u16, body: String },
    /// A well-formed post-processing response carried no candidates.
    NoChoices,
}

/// Turns a transcription response — its status, raw body, and the decoded
/// body if a success body decoded — into the transcript or the exact error.
/// The transcript is owed precisely when the status is a success and the
/// body decoded; a non-success status reports the status and its body.
pub fn interpret_transcription(
    status_success: bool,
    status: u16,
    body: String,
    parsed: Option<WhisperResponse>,
) -> (r: Result<String, ApiError>)
    ensures
        (r is Ok) == (status_success && parsed is Some),
        parsed matches Some(w) ==> (status_success ==> r == Ok::<String, ApiError>(w.text)),
        status_success && parsed is None ==> r == Err::<String, ApiError>(
            ApiError::MalformedResponse,
        ),
        !status_success ==> r == Err::<String, ApiError>(
            ApiError::EndpointStatus { status, body },
        ),
{
    if status_success {
        match parsed {
            Some(w) => Ok(w.text),
            None => Err(ApiError::MalformedResponse),
        }
    } else {
        Err(ApiError::EndpointStatus { status, body })
    }
}

/// Turns a post-processing response into the cleaned-up text or the exact
/// error. Text is owed precisely when the status is a success, the body
/// decoded, and at least one candidate came back; the text is the first
/// candidate, trimmed. An empty candidate list is its own failure.
pub fn interpret_post_processing(
    status_success: bool,
    status: u16,
    body: String,
    parsed: Option<LLMResponse>,
) -> (r: Result<String, ApiError>)
    ensures
        parsed is None ==> !(r is Ok),
        parsed matches Some(resp) ==> ((r is Ok) == (status_success && resp.choices@.len() > 0)),
        parsed matches Some(resp) ==> (status_success && resp.choices@.len() > 0 ==> (r matches Ok(
            t,
        ) && t@ == spec_trimmed(resp.choices@[0].text@))),
        parsed matches Some(resp) ==> (status_success && resp.choices@.len() == 0 ==> r == Err::<
            String,
            ApiError,
        >(ApiError::NoChoices)),
        status_success && parsed is None ==> r == Err::<String, ApiError>(
            ApiError::MalformedResponse,
        ),
        !status_success ==> r == Err::<String, ApiError>(
            ApiError::EndpointStatus { status, body },
        ),
{
    if status_success {
        match parsed {
            Some(resp) => {
                if resp.choices.len() > 0 {
                    let first = &resp.choices[0];
                    Ok(trim_str(first.text.as_str()))
                } else {
                    Err(ApiError::NoChoices)
                }
            },
            None => Err(ApiError::MalformedResponse),
        }
    } else {
        Err(ApiError::EndpointStatus { status, body })
    }
}

} // verus!
