use whisperkey::api::ApiError;
use whisperkey::pipeline::{
    EndpointChoice, Orchestrator, Phase, PipelineAction, PipelineEvent,
};
use whisperkey::wav::{CaptureSink, WavFormat};

fn capture_artifact(samples: &[i16]) -> whisperkey::wav::AudioArtifact {
    let mut sink = CaptureSink::new(WavFormat { channels: 1, sample_rate: 16000 });
    for &s in samples {
        assert!(sink.push_sample(s));
    }
    sink.finalize()
}

#[test]
fn test_main_flow_without_hotkeys() {
    // With nothing armed, polling leaves the orchestrator idle and asks for
    // no work.
    let orch = Orchestrator::new(false);
    let (orch, act) = orch.step(PipelineEvent::Poll {
        recording_armed: false,
        post_process_armed: false,
    });
    assert!(matches!(act, PipelineAction::Wait));
    assert_eq!(orch.phase, Phase::Idle);
    assert!(true);
}

#[test]
fn test_copy_to_clipboard_failure() {
    // A clipboard failure cannot be provoked portably; what the design
    // promises is that a failed delivery is non-fatal: the run still
    // completes and the machine returns to idle.
    let orch = Orchestrator::new(false);
    let (orch, _) = orch.step(PipelineEvent::Poll {
        recording_armed: true,
        post_process_armed: false,
    });
    let artifact = capture_artifact(&[1, 2, 3]);
    let (orch, _) = orch.step(PipelineEvent::CaptureFinished { artifact: Some(artifact) });
    let (orch, _) = orch.step(PipelineEvent::ProbeFinished { local_available: true });
    let (orch, _) = orch.step(PipelineEvent::TranscriptionFinished {
        outcome: Ok("anything".to_string()),
    });
    let (orch, act) = orch.step(PipelineEvent::DeliveryFinished { delivered: false });
    assert!(matches!(act, PipelineAction::FinishRun));
    assert_eq!(orch.phase, Phase::Idle);
}

#[test]
fn end_to_end_hello_world_reaches_clipboard() {
    // Recording combo armed, a short capture, local endpoint reachable, no
    // post-processing: the clipboard receives exactly the transcript.
    let orch = Orchestrator::new(false);
    let (orch, act) = orch.step(PipelineEvent::Poll {
        recording_armed: true,
        post_process_armed: false,
    });
    assert!(matches!(act, PipelineAction::StartCapture));
    assert_eq!(orch.phase, Phase::Recording);

    // A two-second synthetic capture session at 16 kHz mono.
    let samples: Vec<i16> = (0..32000).map(|i| (i % 128) as i16).collect();
    let mut sink = CaptureSink::new(WavFormat { channels: 1, sample_rate: 16000 });
    for &s in &samples {
        assert!(sink.push_sample(s));
    }
    let artifact = sink.finalize();
    assert!(artifact.data.len() > 44);

    let (orch, act) = orch.step(PipelineEvent::CaptureFinished { artifact: Some(artifact) });
    assert!(matches!(act, PipelineAction::ProbeLocalEndpoint));

    let (orch, act) = orch.step(PipelineEvent::ProbeFinished { local_available: true });
    match act {
        PipelineAction::CallTranscription { endpoint, artifact } => {
            assert_eq!(endpoint, EndpointChoice::Local);
            assert!(!artifact.data.is_empty());
        }
        other => panic!("expected a transcription call, got {:?}", other),
    }

    let (orch, act) = orch.step(PipelineEvent::TranscriptionFinished {
        outcome: Ok("hello world".to_string()),
    });
    match act {
        PipelineAction::DeliverText { text } => assert_eq!(text, "hello world"),
        other => panic!("expected a delivery, got {:?}", other),
    }

    let (orch, act) = orch.step(PipelineEvent::DeliveryFinished { delivered: true });
    assert!(matches!(act, PipelineAction::FinishRun));
    assert_eq!(orch.phase, Phase::Idle);
}

#[test]
fn transcription_failure_aborts_run_and_leaves_clipboard_alone() {
    let orch = Orchestrator::new(false);
    let (orch, _) = orch.step(PipelineEvent::Poll {
        recording_armed: true,
        post_process_armed: false,
    });
    let artifact = capture_artifact(&[0, 0, 0]);
    let (orch, _) = orch.step(PipelineEvent::CaptureFinished { artifact: Some(artifact) });
    let (orch, _) = orch.step(PipelineEvent::ProbeFinished { local_available: true });
    let (orch, act) = orch.step(PipelineEvent::TranscriptionFinished {
        outcome: Err(ApiError::EndpointStatus { status: 400, body: "Bad Request".to_string() }),
    });
    assert!(matches!(act, PipelineAction::FinishRun));
    assert!(!matches!(act, PipelineAction::DeliverText { .. }));
    assert_eq!(orch.phase, Phase::Idle);
}

#[test]
fn probe_success_never_contacts_hosted_endpoint() {
    let orch = Orchestrator::new(false);
    let (orch, _) = orch.step(PipelineEvent::Poll {
        recording_armed: true,
        post_process_armed: false,
    });
    let artifact = capture_artifact(&[7]);
    let (orch, _) = orch.step(PipelineEvent::CaptureFinished { artifact: Some(artifact) });
    let (_, act) = orch.step(PipelineEvent::ProbeFinished { local_available: true });
    match act {
        PipelineAction::CallTranscription { endpoint, .. } => {
            assert_eq!(endpoint, EndpointChoice::Local);
        }
        other => panic!("expected a transcription call, got {:?}", other),
    }
}

#[test]
fn declined_consent_makes_no_transcription_and_no_delivery() {
    let orch = Orchestrator::new(false);
    let (orch, _) = orch.step(PipelineEvent::Poll {
        recording_armed: true,
        post_process_armed: false,
    });
    let artifact = capture_artifact(&[7]);
    let (orch, _) = orch.step(PipelineEvent::CaptureFinished { artifact: Some(artifact) });
    let (orch, act) = orch.step(PipelineEvent::ProbeFinished { local_available: false });
    assert!(matches!(act, PipelineAction::RequestConsent));
    let (orch, act) = orch.step(PipelineEvent::ConsentAnswered { accepted: false });
    assert!(matches!(act, PipelineAction::FinishRun));
    assert!(!matches!(act, PipelineAction::CallTranscription { .. }));
    assert!(!matches!(act, PipelineAction::DeliverText { .. }));
    assert_eq!(orch.phase, Phase::Idle);
}

#[test]
fn accepted_consent_sends_audio_to_hosted_endpoint() {
    let orch = Orchestrator::new(false);
    let (orch, _) = orch.step(PipelineEvent::Poll {
        recording_armed: true,
        post_process_armed: false,
    });
    let artifact = capture_artifact(&[7]);
    let (orch, _) = orch.step(PipelineEvent::CaptureFinished { artifact: Some(artifact) });
    let (orch, _) = orch.step(PipelineEvent::ProbeFinished { local_available: false });
    let (_, act) = orch.step(PipelineEvent::ConsentAnswered { accepted: true });
    match act {
        PipelineAction::CallTranscription { endpoint, .. } => {
            assert_eq!(endpoint, EndpointChoice::Hosted);
        }
        other => panic!("expected a transcription call, got {:?}", other),
    }
}

#[test]
fn post_processing_failure_falls_back_to_transcript() {
    let orch = Orchestrator::new(false);
    let (orch, _) = orch.step(PipelineEvent::Poll {
        recording_armed: true,
        post_process_armed: true,
    });
    let artifact = capture_artifact(&[7]);
    let (orch, _) = orch.step(PipelineEvent::CaptureFinished { artifact: Some(artifact) });
    let (orch, _) = orch.step(PipelineEvent::ProbeFinished { local_available: true });
    let (orch, act) = orch.step(PipelineEvent::TranscriptionFinished {
        outcome: Ok("Transcribed text.".to_string()),
    });
    match act {
        PipelineAction::CallPostProcessing { transcript } => {
            assert_eq!(transcript, "Transcribed text.");
        }
        other => panic!("expected a post-processing call, got {:?}", other),
    }
    let (orch, act) = orch.step(PipelineEvent::PostProcessingFinished {
        outcome: Err(ApiError::EndpointStatus {
            status: 500,
            body: "Internal Server Error".to_string(),
        }),
    });
    match act {
        PipelineAction::DeliverText { text } => assert_eq!(text, "Transcribed text."),
        other => panic!("expected a delivery, got {:?}", other),
    }
    assert_eq!(orch.phase, Phase::Delivering);
}

#[test]
fn config_flag_forces_post_processing() {
    let orch = Orchestrator::new(true);
    let (orch, _) = orch.step(PipelineEvent::Poll {
        recording_armed: true,
        post_process_armed: false,
    });
    let artifact = capture_artifact(&[7]);
    let (orch, _) = orch.step(PipelineEvent::CaptureFinished { artifact: Some(artifact) });
    let (orch, _) = orch.step(PipelineEvent::ProbeFinished { local_available: true });
    let (orch, act) = orch.step(PipelineEvent::TranscriptionFinished {
        outcome: Ok("Transcribed text.".to_string()),
    });
    assert!(matches!(act, PipelineAction::CallPostProcessing { .. }));
    let (orch, act) = orch.step(PipelineEvent::PostProcessingFinished {
        outcome: Ok("Cleaned up and formatted text.".to_string()),
    });
    match act {
        PipelineAction::DeliverText { text } => {
            assert_eq!(text, "Cleaned up and formatted text.");
        }
        other => panic!("expected a delivery, got {:?}", other),
    }
    assert_eq!(orch.phase, Phase::Delivering);
}

#[test]
fn failed_capture_aborts_run() {
    let orch = Orchestrator::new(false);
    let (orch, _) = orch.step(PipelineEvent::Poll {
        recording_armed: true,
        post_process_armed: false,
    });
    let (orch, act) = orch.step(PipelineEvent::CaptureFinished { artifact: None });
    assert!(matches!(act, PipelineAction::FinishRun));
    assert_eq!(orch.phase, Phase::Idle);
}

#[test]
fn transport_failure_aborts_run() {
    let orch = Orchestrator::new(false);
    let (orch, _) = orch.step(PipelineEvent::Poll {
        recording_armed: true,
        post_process_armed: false,
    });
    let artifact = capture_artifact(&[7]);
    let (orch, _) = orch.step(PipelineEvent::CaptureFinished { artifact: Some(artifact) });
    let (orch, _) = orch.step(PipelineEvent::ProbeFinished { local_available: true });
    let (orch, act) = orch.step(PipelineEvent::TranscriptionFinished {
        outcome: Err(ApiError::Transport { detail: "connection refused".to_string() }),
    });
    assert!(matches!(act, PipelineAction::FinishRun));
    assert_eq!(orch.phase, Phase::Idle);
}

#[test]
fn out_of_phase_events_are_ignored() {
    let orch = Orchestrator::new(false);
    let (orch, act) = orch.step(PipelineEvent::ConsentAnswered { accepted: true });
    assert!(matches!(act, PipelineAction::Wait));
    assert_eq!(orch.phase, Phase::Idle);
    let (orch, act) = orch.step(PipelineEvent::TranscriptionFinished {
        outcome: Ok("stray".to_string()),
    });
    assert!(matches!(act, PipelineAction::Wait));
    assert_eq!(orch.phase, Phase::Idle);
}

#[test]
fn no_new_recording_while_a_run_is_in_flight() {
    let orch = Orchestrator::new(false);
    let (orch, _) = orch.step(PipelineEvent::Poll {
        recording_armed: true,
        post_process_armed: false,
    });
    assert_eq!(orch.phase, Phase::Recording);
    // A poll while busy must not start a second capture.
    let (orch, act) = orch.step(PipelineEvent::Poll {
        recording_armed: true,
        post_process_armed: true,
    });
    assert!(matches!(act, PipelineAction::Wait));
    assert_eq!(orch.phase, Phase::Recording);
}
