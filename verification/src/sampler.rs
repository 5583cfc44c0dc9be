use vstd::prelude::*;

use crate::codec::DecodeError;
use crate::structs::WebsocketResponse;
use crate::structs::WebsocketResponseResult;

verus! {

/// The three protocol commands the sampler ever sends. None takes parameters.
#[derive(Clone, Copy, PartialEq, Eq, Structural, Debug)]
pub enum Command {
    /// Resume the target if it is paused; idempotent.
    ResumeIfPaused,
    /// Start heap sampling; sent exactly once.
    StartSampling,
    /// Ask for the current sampling snapshot; sent once per poll interval.
    GetSamplingProfile,
}

/// The sampler's lifecycle states.
#[derive(Clone, Copy, PartialEq, Eq, Structural, Debug)]
pub enum SamplerState {
    Idle,
    AwaitingTargetResume,
    Sampling,
    Terminating,
}

/// The external happenings the sampler reacts to.
#[derive(Clone, Copy, PartialEq, Eq, Structural, Debug)]
pub enum SamplerEvent {
    /// The session is connected and the sampler takes over.
    Begin,
    /// The configured initial delay has elapsed.
    DelayElapsed,
    /// One poll interval has elapsed.
    Tick,
    /// The external termination trigger fired.
    Cancel,
}

/// What the host must do after a step.
#[derive(Clone, Copy, PartialEq, Eq, Structural, Debug)]
pub enum SamplerAction {
    Send(Command),
    Aggregate,
    Nothing,
}

/// The sampler's transition function: from `Idle`, beginning sends the
/// idempotent resume command; once the initial delay has elapsed, sampling
/// starts (the start command is sent exactly once); while `Sampling`, every
/// tick sends one poll command; cancellation, from any live state, moves to
/// `Terminating` and triggers aggregation, after which nothing further
/// happens. Any other event is ignored in place.
pub open spec fn step_spec(s: SamplerState, e: SamplerEvent) -> (SamplerState, SamplerAction) {
    match (s, e) {
        (SamplerState::Terminating, _) => (SamplerState::Terminating, SamplerAction::Nothing),
        (_, SamplerEvent::Cancel) => (SamplerState::Terminating, SamplerAction::Aggregate),
        (SamplerState::Idle, SamplerEvent::Begin) => (
            SamplerState::AwaitingTargetResume,
            SamplerAction::Send(Command::ResumeIfPaused),
        ),
        (SamplerState::AwaitingTargetResume, SamplerEvent::DelayElapsed) => (
            SamplerState::Sampling,
            SamplerAction::Send(Command::StartSampling),
        ),
        (SamplerState::Sampling, SamplerEvent::Tick) => (
            SamplerState::Sampling,
            SamplerAction::Send(Command::GetSamplingProfile),
        ),
        (_, _) => (s, SamplerAction::Nothing),
    }
}

/// Advances the sampler by one step.
pub fn sampler_step(s: SamplerState, e: SamplerEvent) -> (r: (SamplerState, SamplerAction))
    ensures
        r == step_spec(s, e),
{
    match (s, e) {
        (SamplerState::Terminating, _) => (SamplerState::Terminating, SamplerAction::Nothing),
        (_, SamplerEvent::Cancel) => (SamplerState::Terminating, SamplerAction::Aggregate),
        (SamplerState::Idle, SamplerEvent::Begin) => (
            SamplerState::AwaitingTargetResume,
            SamplerAction::Send(Command::ResumeIfPaused),
        ),
        (SamplerState::AwaitingTargetResume, SamplerEvent::DelayElapsed) => (
            SamplerState::Sampling,
            SamplerAction::Send(Command::StartSampling),
        ),
        (SamplerState::Sampling, SamplerEvent::Tick) => (
            SamplerState::Sampling,
            SamplerAction::Send(Command::GetSamplingProfile),
        ),
        (_, _) => (s, SamplerAction::Nothing),
    }
}

/// The wire text of a command: one JSON object `{"id":N,"method":"M"}`.
/// Commands reuse static identifiers; responses are consumed in delivery
/// order without request pairing.
pub open spec fn command_chars(c: Command) -> Seq<char> {
    match c {
        Command::ResumeIfPaused => "{\"id\":0,\"method\":\"Runtime.runIfWaitingForDebugger\"}"@,
        Command::StartSampling => "{\"id\":0,\"method\":\"HeapProfiler.startSampling\"}"@,
        Command::GetSamplingProfile => "{\"id\":1,\"method\":\"HeapProfiler.getSamplingProfile\"}"@,
    }
}

/// Renders the wire text of a command.
pub fn command_text(c: Command) -> (r: String)
    ensures
        r@ == command_chars(c),
{
    match c {
        Command::ResumeIfPaused => "{\"id\":0,\"method\":\"Runtime.runIfWaitingForDebugger\"}".to_owned(),
        Command::StartSampling => "{\"id\":0,\"method\":\"HeapProfiler.startSampling\"}".to_owned(),
        Command::GetSamplingProfile => "{\"id\":1,\"method\":\"HeapProfiler.getSamplingProfile\"}".to_owned(),
    }
}

/// What the receive loop does with one inbound message.
#[derive(Clone, Copy, PartialEq, Eq, Structural, Debug)]
pub enum ReceiveAction {
    /// A profile payload: flatten it and persist a snapshot file.
    Persist,
    /// A plain acknowledgement: consume and discard it.
    Discard,
    /// A malformed message: log and skip it, the loop continues.
    Skip,
}

/// The receive loop's policy for one decoded message.
pub open spec fn receive_spec(d: Result<WebsocketResponse, DecodeError>) -> ReceiveAction {
    match d {
        Ok(m) => match m.result {
            WebsocketResponseResult::Profile { .. } => ReceiveAction::Persist,
            WebsocketResponseResult::Normal {  } => ReceiveAction::Discard,
        },
        Err(_) => ReceiveAction::Skip,
    }
}

/// Decides what to do with one decode outcome.
pub fn on_message(d: &Result<WebsocketResponse, DecodeError>) -> (r: ReceiveAction)
    ensures
        r == receive_spec(*d),
{
    match d {
        Ok(m) => match &m.result {
            WebsocketResponseResult::Profile { .. } => ReceiveAction::Persist,
            WebsocketResponseResult::Normal {  } => ReceiveAction::Discard,
        },
        Err(_) => ReceiveAction::Skip,
    }
}

} // verus!
