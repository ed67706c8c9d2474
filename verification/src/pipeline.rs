use vstd::prelude::*;

verus! {

use crate::api::ApiError;
use crate::wav::AudioArtifact;

/// Where the dispatch orchestrator stands in the current run.
#[derive(Clone, Copy, PartialEq, Eq, Structural, Debug)]
pub enum Phase {
    /// No run is in flight; polling the shared input state.
    Idle,
    /// A capture session is filling the sink.
    Recording,
    /// The artifact is ready; probing the local endpoint's reachability.
    SelectingEndpoint,
    /// The local endpoint is unreachable; waiting on the sensitive-data
    /// confirmation gate before any audio may leave the machine.
    AwaitingConsent,
    /// The transcription call is in flight.
    Transcribing,
    /// The post-processing call is in flight.
    PostProcessing,
    /// The final text is on its way to the clipboard.
    Delivering,
}

/// Which transcription endpoint a run sends its audio to.
#[derive(Clone, Copy, PartialEq, Eq, Structural, Debug)]
pub enum EndpointChoice {
    Local,
    Hosted,
}

/// What the surrounding loop reports back to the orchestrator: one poll of
/// the shared input state, or the completion of the outside work the last
/// action asked for.
#[derive(Debug)]
pub enum PipelineEvent {
    Poll { recording_armed: bool, post_process_armed: bool },
    /// The capture session ended: the artifact, or `None` when the device
    /// failed or the container could not be finalized.
    CaptureFinished { artifact: Option<AudioArtifact> },
    ProbeFinished { local_available: bool },
    ConsentAnswered { accepted: bool },
    TranscriptionFinished { outcome: Result<String, ApiError> },
    PostProcessingFinished { outcome: Result<String, ApiError> },
    DeliveryFinished { delivered: bool },
}

/// What the orchestrator asks the surrounding loop to do next.
#[derive(Debug)]
pub enum PipelineAction {
    /// Nothing to do; sleep until the next poll.
    Wait,
    /// Open the capture stream and sink for one session.
    StartCapture,
    /// Check whether the local transcription endpoint is reachable.
    ProbeLocalEndpoint,
    /// Ask the user to confirm sending audio off-machine; decline by default.
    RequestConsent,
    /// Send the artifact to the chosen endpoint.
    CallTranscription { endpoint: EndpointChoice, artifact: AudioArtifact },
    /// Send the transcript to the post-processing endpoint.
    CallPostProcessing { transcript: String },
    /// Write the final text to the clipboard.
    DeliverText { text: String },
    /// The run is over (delivered or aborted): reset both armed flags in the
    /// shared input state so a still-held combo does not re-trigger.
    FinishRun,
}

/// The dispatch orchestrator: a state machine that decides, from its phase
/// and one event, the next phase and the one action to perform. Only one run
/// is ever in flight: a new capture starts only from `Idle`.
#[derive(Debug)]
pub struct Orchestrator {
    pub phase: Phase,
    /// The configuration flag that forces post-processing on every run.
    pub always_post_process: bool,
    /// Whether the post-processing modifier was armed when the run started.
    pub post_process_armed: bool,
    /// The artifact, held while the endpoint is being selected.
    pub pending_artifact: Option<AudioArtifact>,
    /// The transcript, held while post-processing may still fall back to it.
    pub pending_transcript: Option<String>,
}

impl Orchestrator {
    /// What is held matches the phase: the artifact exactly while an
    /// endpoint is being selected, the transcript exactly while
    /// post-processing is in flight.
    pub open spec fn inv(&self) -> bool {
        &&& (self.pending_artifact is Some <==> (self.phase is SelectingEndpoint
            || self.phase is AwaitingConsent))
        &&& (self.pending_transcript is Some <==> self.phase is PostProcessing)
    }

    /// The orchestrator as a run leaves it: idle, holding nothing, with the
    /// latched modifier cleared. Only the configuration flag survives.
    pub open spec fn spec_reset(self) -> Orchestrator {
        Orchestrator {
            phase: Phase::Idle,
            always_post_process: self.always_post_process,
            post_process_armed: false,
            pending_artifact: None,
            pending_transcript: None,
        }
    }

    /// A fresh orchestrator for the given configuration flag.
    pub fn new(always_post_process: bool) -> (r: Self)
        ensures
            r.inv(),
            r.phase is Idle,
            r.always_post_process == always_post_process,
            !r.post_process_armed,
    {
        Orchestrator {
            phase: Phase::Idle,
            always_post_process,
            post_process_armed: false,
            pending_artifact: None,
            pending_transcript: None,
        }
    }

    /// Performs one decision step; the returned orchestrator and action are
    /// exactly what `step_rel` relates to the inputs.
    pub fn step(self, ev: PipelineEvent) -> (r: (Orchestrator, PipelineAction))
        requires
            self.inv(),
        ensures
            r.0.inv(),
            r.0.always_post_process == self.always_post_process,
            step_rel(self, ev, r.0, r.1),
    {
        let Orchestrator {
            phase,
            always_post_process,
            post_process_armed,
            pending_artifact,
            pending_transcript,
        } = self;
        match phase {
            Phase::Idle => match ev {
                PipelineEvent::Poll { recording_armed, post_process_armed: modifier } => {
                    if recording_armed {
                        (
                            Orchestrator {
                                phase: Phase::Recording,
                                always_post_process,
                                post_process_armed: modifier,
                                pending_artifact: None,
                                pending_transcript: None,
                            },
                            PipelineAction::StartCapture,
                        )
                    } else {
                        (self_like(phase, always_post_process, post_process_armed), PipelineAction::Wait)
                    }
                },
                _ => (self_like(phase, always_post_process, post_process_armed), PipelineAction::Wait),
            },
            Phase::Recording => match ev {
                PipelineEvent::CaptureFinished { artifact } => match artifact {
                    Some(a) => (
                        Orchestrator {
                            phase: Phase::SelectingEndpoint,
                            always_post_process,
                            post_process_armed,
                            pending_artifact: Some(a),
                            pending_transcript: None,
                        },
                        PipelineAction::ProbeLocalEndpoint,
                    ),
                    None => (reset(always_post_process), PipelineAction::FinishRun),
                },
                _ => (self_like(phase, always_post_process, post_process_armed), PipelineAction::Wait),
            },
            Phase::SelectingEndpoint => match ev {
                PipelineEvent::ProbeFinished { local_available } => match pending_artifact {
                    Some(a) => {
                        if local_available {
                            (
                                Orchestrator {
                                    phase: Phase::Transcribing,
                                    always_post_process,
                                    post_process_armed,
                                    pending_artifact: None,
                                    pending_transcript: None,
                                },
                                PipelineAction::CallTranscription {
                                    endpoint: EndpointChoice::Local,
                                    artifact: a,
                                },
                            )
                        } else {
                            (
                                Orchestrator {
                                    phase: Phase::AwaitingConsent,
                                    always_post_process,
                                    post_process_armed,
                                    pending_artifact: Some(a),
                                    pending_transcript: None,
                                },
                                PipelineAction::RequestConsent,
                            )
                        }
                    },
                    None => {
                        proof {
                            assert(false);
                        }
                        (reset(always_post_process), PipelineAction::Wait)
                    },
                },
                _ => (
                    Orchestrator {
                        phase,
                        always_post_process,
                        post_process_armed,
                        pending_artifact,
                        pending_transcript: None,
                    },
                    PipelineAction::Wait,
                ),
            },
            Phase::AwaitingConsent => match ev {
                PipelineEvent::ConsentAnswered { accepted } => match pending_artifact {
                    Some(a) => {
                        if accepted {
                            (
                                Orchestrator {
                                    phase: Phase::Transcribing,
                                    always_post_process,
                                    post_process_armed,
                                    pending_artifact: None,
                                    pending_transcript: None,
                                },
                                PipelineAction::CallTranscription {
                                    endpoint: EndpointChoice::Hosted,
                                    artifact: a,
                                },
                            )
                        } else {
                            (reset(always_post_process), PipelineAction::FinishRun)
                        }
                    },
                    None => {
                        proof {
                            assert(false);
                        }
                        (reset(always_post_process), PipelineAction::Wait)
                    },
                },
                _ => (
                    Orchestrator {
                        phase,
                        always_post_process,
                        post_process_armed,
                        pending_artifact,
                        pending_transcript: None,
                    },
                    PipelineAction::Wait,
                ),
            },
            Phase::Transcribing => match ev {
                PipelineEvent::TranscriptionFinished { outcome } => match outcome {
                    Ok(t) => {
                        if post_process_armed || always_post_process {
                            let request = t.clone();
                            (
                                Orchestrator {
                                    phase: Phase::PostProcessing,
                                    always_post_process,
                                    post_process_armed,
                                    pending_artifact: None,
                                    pending_transcript: Some(t),
                                },
                                PipelineAction::CallPostProcessing { transcript: request },
                            )
                        } else {
                            (
                                Orchestrator {
                                    phase: Phase::Delivering,
                                    always_post_process,
                                    post_process_armed,
                                    pending_artifact: None,
                                    pending_transcript: None,
                                },
                                PipelineAction::DeliverText { text: t },
                            )
                        }
                    },
                    Err(_) => (reset(always_post_process), PipelineAction::FinishRun),
                },
                _ => (self_like(phase, always_post_process, post_process_armed), PipelineAction::Wait),
            },
            Phase::PostProcessing => match ev {
                PipelineEvent::PostProcessingFinished { outcome } => match outcome {
                    Ok(t) => (
                        Orchestrator {
                            phase: Phase::Delivering,
                            always_post_process,
                            post_process_armed,
                            pending_artifact: None,
                            pending_transcript: None,
                        },
                        PipelineAction::DeliverText { text: t },
                    ),
                    Err(_) => match pending_transcript {
                        Some(t) => (
                            Orchestrator {
                                phase: Phase::Delivering,
                                always_post_process,
                                post_process_armed,
                                pending_artifact: None,
                                pending_transcript: None,
                            },
                            PipelineAction::DeliverText { text: t },
                        ),
                        None => {
                            proof {
                                assert(false);
                            }
                            (reset(always_post_process), PipelineAction::Wait)
                        },
                    },
                },
                _ => (
                    Orchestrator {
                        phase,
                        always_post_process,
                        post_process_armed,
                        pending_artifact: None,
                        pending_transcript,
                    },
                    PipelineAction::Wait,
                ),
            },
            Phase::Delivering => match ev {
                PipelineEvent::DeliveryFinished { delivered: _ } => (
                    reset(always_post_process),
                    PipelineAction::FinishRun,
                ),
                _ => (self_like(phase, always_post_process, post_process_armed), PipelineAction::Wait),
            },
        }
    }
}

/// An orchestrator holding nothing, in the given phase.
fn self_like(phase: Phase, always_post_process: bool, post_process_armed: bool) -> (r: Orchestrator)
    ensures
        (r == Orchestrator {
            phase,
            always_post_process,
            post_process_armed,
            pending_artifact: None,
            pending_transcript: None,
        }),
{
    Orchestrator {
        phase,
        always_post_process,
        post_process_armed,
        pending_artifact: None,
        pending_transcript: None,
    }
}

/// The idle orchestrator a finished or aborted run leaves behind.
fn reset(always_post_process: bool) -> (r: Orchestrator)
    ensures
        (r == Orchestrator {
            phase: Phase::Idle,
            always_post_process,
            post_process_armed: false,
            pending_artifact: None,
            pending_transcript: None,
        }),
{
    Orchestrator {
        phase: Phase::Idle,
        always_post_process,
        post_process_armed: false,
        pending_artifact: None,
        pending_transcript: None,
    }
}

/// The orchestrator's full transition relation: for a pre-state and an
/// event, exactly which post-state and action `step` produces. Events that
/// do not answer the current phase are ignored.
pub open spec fn step_rel(
    pre: Orchestrator,
    ev: PipelineEvent,
    post: Orchestrator,
    act: PipelineAction,
) -> bool {
    match pre.phase {
        Phase::Idle => match ev {
            PipelineEvent::Poll { recording_armed, post_process_armed: modifier } => {
                if recording_armed {
                    &&& post == Orchestrator {
                        phase: Phase::Recording,
                        post_process_armed: modifier,
                        ..pre
                    }
                    &&& act is StartCapture
                } else {
                    post == pre && act is Wait
                }
            },
            _ => post == pre && act is Wait,
        },
        Phase::Recording => match ev {
            PipelineEvent::CaptureFinished { artifact } => match artifact {
                Some(a) => {
                    &&& post == Orchestrator {
                        phase: Phase::SelectingEndpoint,
                        pending_artifact: Some(a),
                        ..pre
                    }
                    &&& act is ProbeLocalEndpoint
                },
                None => post == pre.spec_reset() && act is FinishRun,
            },
            _ => post == pre && act is Wait,
        },
        Phase::SelectingEndpoint => match ev {
            PipelineEvent::ProbeFinished { local_available } => {
                if local_available {
                    &&& post == Orchestrator {
                        phase: Phase::Transcribing,
                        pending_artifact: None,
                        ..pre
                    }
                    &&& act matches PipelineAction::CallTranscription { endpoint, artifact }
                    &&& endpoint is Local
                    &&& Some(artifact) == pre.pending_artifact
                } else {
                    &&& post == Orchestrator { phase: Phase::AwaitingConsent, ..pre }
                    &&& act is RequestConsent
                }
            },
            _ => post == pre && act is Wait,
        },
        Phase::AwaitingConsent => match ev {
            PipelineEvent::ConsentAnswered { accepted } => {
                if accepted {
                    &&& post == Orchestrator {
                        phase: Phase::Transcribing,
                        pending_artifact: None,
                        ..pre
                    }
                    &&& act matches PipelineAction::CallTranscription { endpoint, artifact }
                    &&& endpoint is Hosted
                    &&& Some(artifact) == pre.pending_artifact
                } else {
                    post == pre.spec_reset() && act is FinishRun
                }
            },
            _ => post == pre && act is Wait,
        },
        Phase::Transcribing => match ev {
            PipelineEvent::TranscriptionFinished { outcome } => match outcome {
                Ok(t) => {
                    if pre.post_process_armed || pre.always_post_process {
                        &&& post == Orchestrator {
                            phase: Phase::PostProcessing,
                            pending_transcript: Some(t),
                            ..pre
                        }
                        &&& act == PipelineAction::CallPostProcessing { transcript: t }
                    } else {
                        &&& post == Orchestrator { phase: Phase::Delivering, ..pre }
                        &&& act == PipelineAction::DeliverText { text: t }
                    }
                },
                Err(_) => post == pre.spec_reset() && act is FinishRun,
            },
            _ => post == pre && act is Wait,
        },
        Phase::PostProcessing => match ev {
            PipelineEvent::PostProcessingFinished { outcome } => match outcome {
                Ok(t) => {
                    &&& post == Orchestrator {
                        phase: Phase::Delivering,
                        pending_transcript: None,
                        ..pre
                    }
                    &&& act == PipelineAction::DeliverText { text: t }
                },
                Err(_) => {
                    &&& post == Orchestrator {
                        phase: Phase::Delivering,
                        pending_transcript: None,
                        ..pre
                    }
                    &&& act matches PipelineAction::DeliverText { text }
                    &&& Some(text) == pre.pending_transcript
                },
            },
            _ => post == pre && act is Wait,
        },
        Phase::Delivering => match ev {
            PipelineEvent::DeliveryFinished { .. } => post == pre.spec_reset() && act is FinishRun,
            _ => post == pre && act is Wait,
        },
    }
}

/// A capture session starts only from `Idle`: no new run can begin while
/// another is recording, transcribing, post-processing or delivering.
pub proof fn lemma_one_run_at_a_time(
    pre: Orchestrator,
    ev: PipelineEvent,
    post: Orchestrator,
    act: PipelineAction,
)
    requires
        step_rel(pre, ev, post, act),
        act is StartCapture,
    ensures
        pre.phase is Idle,
        ev matches PipelineEvent::Poll { recording_armed, .. } && recording_armed,
{
}

/// When the reachability probe succeeds, the transcription call of that run
/// goes to the local endpoint.
pub proof fn lemma_probe_success_stays_local(
    pre: Orchestrator,
    ev: PipelineEvent,
    post: Orchestrator,
    act: PipelineAction,
)
    requires
        step_rel(pre, ev, post, act),
        pre.phase is SelectingEndpoint,
        ev matches PipelineEvent::ProbeFinished { local_available: true },
    ensures
        act matches PipelineAction::CallTranscription { endpoint, .. } && endpoint is Local,
        post.phase is Transcribing,
{
}

/// The hosted endpoint is contacted only after the probe failed and the user
/// explicitly accepted the confirmation gate: a hosted transcription action
/// arises in no other way.
pub proof fn lemma_hosted_needs_consent(
    pre: Orchestrator,
    ev: PipelineEvent,
    post: Orchestrator,
    act: PipelineAction,
)
    requires
        step_rel(pre, ev, post, act),
        act matches PipelineAction::CallTranscription { endpoint, .. } && endpoint is Hosted,
    ensures
        pre.phase is AwaitingConsent,
        ev matches PipelineEvent::ConsentAnswered { accepted: true },
{
}

/// The consent gate is entered only when the probe found the local endpoint
/// unreachable.
pub proof fn lemma_consent_only_after_probe_failure(
    pre: Orchestrator,
    ev: PipelineEvent,
    post: Orchestrator,
    act: PipelineAction,
)
    requires
        step_rel(pre, ev, post, act),
        !(pre.phase is AwaitingConsent),
        post.phase is AwaitingConsent,
    ensures
        pre.phase is SelectingEndpoint,
        ev matches PipelineEvent::ProbeFinished { local_available: false },
{
}

/// Declining the sensitive-data gate ends the run at once: no transcription
/// call is made, nothing reaches the clipboard, and the machine is idle.
pub proof fn lemma_declined_consent_aborts_run(
    pre: Orchestrator,
    ev: PipelineEvent,
    post: Orchestrator,
    act: PipelineAction,
)
    requires
        step_rel(pre, ev, post, act),
        pre.phase is AwaitingConsent,
        ev matches PipelineEvent::ConsentAnswered { accepted: false },
    ensures
        !(act matches PipelineAction::CallTranscription { .. }),
        !(act matches PipelineAction::DeliverText { .. }),
        act is FinishRun,
        post == pre.spec_reset(),
        post.phase is Idle,
{
}

/// An idle orchestrator asks for no remote call and no delivery: once a run
/// was aborted, nothing of it can still reach an endpoint or the clipboard.
pub proof fn lemma_idle_makes_no_calls(
    pre: Orchestrator,
    ev: PipelineEvent,
    post: Orchestrator,
    act: PipelineAction,
)
    requires
        step_rel(pre, ev, post, act),
        pre.phase is Idle,
    ensures
        act is Wait || act is StartCapture,
{
}

/// A failed post-processing call degrades gracefully: the run delivers the
/// stored transcript itself, unchanged.
pub proof fn lemma_post_processing_failure_falls_back(
    pre: Orchestrator,
    ev: PipelineEvent,
    post: Orchestrator,
    act: PipelineAction,
    e: ApiError,
)
    requires
        step_rel(pre, ev, post, act),
        pre.phase is PostProcessing,
        ev matches PipelineEvent::PostProcessingFinished { outcome } && outcome == Err::<
            String,
            ApiError,
        >(e),
    ensures
        act matches PipelineAction::DeliverText { text } && Some(text) == pre.pending_transcript,
        post.phase is Delivering,
{
}

/// `states` is a run of the machine under `evs`: each event steps the
/// machine to the next state, emitting the action at the same position.
pub open spec fn trace_ok(
    states: Seq<Orchestrator>,
    evs: Seq<PipelineEvent>,
    acts: Seq<PipelineAction>,
) -> bool {
    &&& states.len() == evs.len() + 1
    &&& acts.len() == evs.len()
    &&& forall|i: int|
        0 <= i < evs.len() ==> step_rel(states[i], #[trigger] evs[i], states[i + 1], acts[i])
}

proof fn lemma_trace_avoids_consent(
    states: Seq<Orchestrator>,
    evs: Seq<PipelineEvent>,
    acts: Seq<PipelineAction>,
    i: int,
)
    requires
        trace_ok(states, evs, acts),
        !(states[0].phase is AwaitingConsent),
        forall|j: int|
            0 <= j < evs.len() ==> !(#[trigger] evs[j] matches PipelineEvent::ProbeFinished {
                local_available: false,
            }),
        0 <= i < states.len(),
    ensures
        !(states[i].phase is AwaitingConsent),
    decreases i,
{
    if i > 0 {
        lemma_trace_avoids_consent(states, evs, acts, i - 1);
        assert(step_rel(states[i - 1], evs[i - 1], states[i], acts[i - 1]));
        if states[i].phase is AwaitingConsent {
            lemma_consent_only_after_probe_failure(
                states[i - 1],
                evs[i - 1],
                states[i],
                acts[i - 1],
            );
        }
    }
}

/// Over a whole run: as long as every reachability probe succeeds, the
/// hosted endpoint is never contacted and the consent gate is never raised.
pub proof fn lemma_successful_probes_never_contact_hosted(
    states: Seq<Orchestrator>,
    evs: Seq<PipelineEvent>,
    acts: Seq<PipelineAction>,
)
    requires
        trace_ok(states, evs, acts),
        !(states[0].phase is AwaitingConsent),
        forall|j: int|
            0 <= j < evs.len() ==> !(#[trigger] evs[j] matches PipelineEvent::ProbeFinished {
                local_available: false,
            }),
    ensures
        forall|i: int|
            0 <= i < acts.len() ==> !(#[trigger] acts[i] matches PipelineAction::CallTranscription {
                endpoint: EndpointChoice::Hosted,
                ..
            }),
        forall|i: int| 0 <= i < acts.len() ==> !(#[trigger] acts[i] is RequestConsent),
{
    assert forall|i: int| 0 <= i < acts.len()
        implies !(#[trigger] acts[i] matches PipelineAction::CallTranscription {
        endpoint: EndpointChoice::Hosted,
        ..
    }) && !(acts[i] is RequestConsent) by {
        lemma_trace_avoids_consent(states, evs, acts, i);
        assert(step_rel(states[i], evs[i], states[i + 1], acts[i]));
        if acts[i] matches PipelineAction::CallTranscription { endpoint, .. }
            && endpoint is Hosted {
            lemma_hosted_needs_consent(states[i], evs[i], states[i + 1], acts[i]);
        }
    }
}

/// Over a whole run: an idle machine whose recording combo never arms does
/// nothing at all — an aborted run is over for good, with no transcription
/// call and no clipboard write, until the user arms a fresh one.
pub proof fn lemma_idle_without_arming_stays_silent(
    states: Seq<Orchestrator>,
    evs: Seq<PipelineEvent>,
    acts: Seq<PipelineAction>,
)
    requires
        trace_ok(states, evs, acts),
        states[0].phase is Idle,
        forall|j: int|
            0 <= j < evs.len() ==> (#[trigger] evs[j] matches PipelineEvent::Poll {
                recording_armed,
                ..
            } ==> !recording_armed),
    ensures
        forall|i: int| 0 <= i < states.len() ==> #[trigger] states[i].phase is Idle,
        forall|i: int| 0 <= i < acts.len() ==> #[trigger] acts[i] is Wait,
{
    assert forall|i: int| 0 <= i < states.len() implies #[trigger] states[i].phase is Idle by {
        lemma_trace_stays_idle(states, evs, acts, i);
    }
    assert forall|i: int| 0 <= i < acts.len() implies #[trigger] acts[i] is Wait by {
        lemma_trace_stays_idle(states, evs, acts, i);
        assert(step_rel(states[i], evs[i], states[i + 1], acts[i]));
    }
}

proof fn lemma_trace_stays_idle(
    states: Seq<Orchestrator>,
    evs: Seq<PipelineEvent>,
    acts: Seq<PipelineAction>,
    i: int,
)
    requires
        trace_ok(states, evs, acts),
        states[0].phase is Idle,
        forall|j: int|
            0 <= j < evs.len() ==> (#[trigger] evs[j] matches PipelineEvent::Poll {
                recording_armed,
                ..
            } ==> !recording_armed),
        0 <= i < states.len(),
    ensures
        states[i].phase is Idle,
    decreases i,
{
    if i > 0 {
        lemma_trace_stays_idle(states, evs, acts, i - 1);
        assert(step_rel(states[i - 1], evs[i - 1], states[i], acts[i - 1]));
    }
}

/// A failed transcription aborts the whole run: nothing is delivered and the
/// machine resets to idle, clipboard untouched.
pub proof fn lemma_transcription_failure_aborts_run(
    pre: Orchestrator,
    ev: PipelineEvent,
    post: Orchestrator,
    act: PipelineAction,
    e: ApiError,
)
    requires
        step_rel(pre, ev, post, act),
        pre.phase is Transcribing,
        ev matches PipelineEvent::TranscriptionFinished { outcome } && outcome == Err::<
            String,
            ApiError,
        >(e),
    ensures
        act is FinishRun,
        !(act matches PipelineAction::DeliverText { .. }),
        post == pre.spec_reset(),
        post.phase is Idle,
{
}

} // verus!
