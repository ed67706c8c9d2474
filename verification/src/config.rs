use vstd::prelude::*;

verus! {

/// The transcription and post-processing endpoints a run may contact.
#[derive(Clone, Debug)]
pub struct Endpoints {
    pub local_whisper: String,
    pub hosted_whisper: String,
    pub llm_endpoint: String,
}

/// The combo strings the global input listener watches for.
#[derive(Clone, Debug)]
pub struct Hotkeys {
    pub recording: String,
    pub post_processing_modifier: String,
}

/// Which capture device to open: a device name, or the default sentinel.
#[derive(Clone, Debug)]
pub struct AudioSettings {
    pub recording_device: String,
}

/// How post-processing is prompted and when it is forced.
#[derive(Clone, Debug)]
pub struct LLMSettings {
    pub post_processing_prompt: String,
    pub always_post_process: bool,
}

/// Credentials the remote calls carry.
#[derive(Clone, Debug)]
pub struct ApiKeys {
    pub openai: String,
}

/// The immutable settings read once at startup.
#[derive(Clone, Debug)]
pub struct Config {
    pub endpoints: Endpoints,
    pub hotkeys: Hotkeys,
    pub audio: AudioSettings,
    pub llm: LLMSettings,
    pub api_keys: ApiKeys,
}

} // verus!
