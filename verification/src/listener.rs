//! The course of one subscription to a program's logs: connect once,
//! subscribe once, then take the notifications as they come. Nothing is
//! tried twice: the first failure ends the run.

use crate::decoder::batch_events;
use crate::decoder::parse_logs_response;
use crate::decoder::LogsResponse;
use crate::event::event_models;
use crate::event::Event;
use crate::line::lines_bytes;
use crate::schema::known_schemas_spec;
use vstd::prelude::*;
use vstd::utf8::encode_utf8;

verus! {

/// Why a subscription ended in an error.
#[derive(Debug, PartialEq, Eq)]
pub enum Error {
    /// The endpoint at `url` could not be reached.
    WebsocketConnection { url: String },
    /// The endpoint refused the subscription.
    LogSubscription,
}

/// How far a subscription has come.
#[derive(Clone, Copy, Debug, PartialEq, Eq, Structural)]
pub enum Phase {
    Connecting,
    Subscribing,
    Listening,
    /// The run is over, in order or not.
    Stopped,
}

/// What the transport reports.
#[derive(Debug, PartialEq, Eq)]
pub enum Signal {
    Connected,
    ConnectionFailed,
    Subscribed,
    SubscriptionFailed,
    /// The log of one transaction has arrived.
    Notification(LogsResponse),
    /// The stream of notifications is over.
    StreamEnded,
}

/// What is to be done after a signal.
#[derive(Debug, PartialEq, Eq)]
pub enum Action {
    /// Ask the endpoint for the logs that mention the program.
    Subscribe,
    /// Wait for the next signal.
    Await,
    /// Hand these events on, then wait for the next signal.
    Deliver(Vec<Event>),
    /// End the run with this error.
    Fail(Error),
    /// End the run in order.
    Finish,
}

/// The phase after `signal` has come in `phase`. A signal that has no
/// place in the phase changes nothing, and nothing leads out of
/// [`Phase::Stopped`].
pub open spec fn next_phase(phase: Phase, signal: Signal) -> Phase {
    match (phase, signal) {
        (Phase::Connecting, Signal::Connected) => Phase::Subscribing,
        (Phase::Connecting, Signal::ConnectionFailed) => Phase::Stopped,
        (Phase::Subscribing, Signal::Subscribed) => Phase::Listening,
        (Phase::Subscribing, Signal::SubscriptionFailed) => Phase::Stopped,
        (Phase::Listening, Signal::StreamEnded) => Phase::Stopped,
        _ => phase,
    }
}

/// Whether `action` is what is to be done when `signal` comes in `phase`
/// for the program `program_id` at the endpoint `url`.
pub open spec fn is_answer(
    phase: Phase,
    signal: Signal,
    url: Seq<char>,
    program_id: Seq<char>,
    action: Action,
) -> bool {
    match (phase, signal) {
        (Phase::Connecting, Signal::Connected) => action is Subscribe,
        (Phase::Connecting, Signal::ConnectionFailed) => action matches Action::Fail(
            Error::WebsocketConnection { url: at },
        ) && at@ == url,
        (Phase::Subscribing, Signal::Subscribed) => action is Await,
        (Phase::Subscribing, Signal::SubscriptionFailed) => action matches Action::Fail(
            Error::LogSubscription,
        ),
        (Phase::Listening, Signal::Notification(response)) => action matches Action::Deliver(
            events,
        ) && event_models(events@) == batch_events(
            known_schemas_spec(),
            lines_bytes(response.logs@),
            encode_utf8(program_id),
        ),
        (Phase::Listening, Signal::StreamEnded) => action is Finish,
        (Phase::Stopped, _) => action is Finish,
        _ => action is Await,
    }
}

/// One subscription to the logs of one program.
#[derive(Debug)]
pub struct Listener {
    /// The endpoint.
    pub url: String,
    /// The program whose events are wanted.
    pub program_id: String,
    pub phase: Phase,
}

impl Listener {
    /// A subscription that has yet to connect.
    pub fn new(url: String, program_id: String) -> (listener: Listener)
        ensures
            listener.url == url,
            listener.program_id == program_id,
            listener.phase == Phase::Connecting,
    {
        Listener { url, program_id, phase: Phase::Connecting }
    }

    /// Whether the run is over.
    pub fn is_stopped(&self) -> (stopped: bool)
        ensures
            stopped == (self.phase == Phase::Stopped),
    {
        match self.phase {
            Phase::Stopped => true,
            _ => false,
        }
    }

    /// Takes a signal from the transport and says what to do next. Each
    /// notification is read on its own, from an empty stack of invocations.
    pub fn advance(&mut self, signal: Signal) -> (action: Action)
        ensures
            final(self).url == old(self).url,
            final(self).program_id == old(self).program_id,
            final(self).phase == next_phase(old(self).phase, signal),
            is_answer(old(self).phase, signal, old(self).url@, old(self).program_id@, action),
    {
        match self.phase {
            Phase::Connecting => match signal {
                Signal::Connected => {
                    self.phase = Phase::Subscribing;
                    Action::Subscribe
                },
                Signal::ConnectionFailed => {
                    self.phase = Phase::Stopped;
                    Action::Fail(Error::WebsocketConnection { url: self.url.clone() })
                },
                _ => Action::Await,
            },
            Phase::Subscribing => match signal {
                Signal::Subscribed => {
                    self.phase = Phase::Listening;
                    Action::Await
                },
                Signal::SubscriptionFailed => {
                    self.phase = Phase::Stopped;
                    Action::Fail(Error::LogSubscription)
                },
                _ => Action::Await,
            },
            Phase::Listening => match signal {
                Signal::Notification(response) => Action::Deliver(
                    parse_logs_response(&response, self.program_id.as_str()),
                ),
                Signal::StreamEnded => {
                    self.phase = Phase::Stopped;
                    Action::Finish
                },
                _ => Action::Await,
            },
            Phase::Stopped => Action::Finish,
        }
    }
}

/// Once a run is over it stays over: whatever comes, the answer is to
/// finish.
pub proof fn lemma_stopped_is_final(signal: Signal, url: Seq<char>, program_id: Seq<char>, action: Action)
    requires
        is_answer(Phase::Stopped, signal, url, program_id, action),
    ensures
        next_phase(Phase::Stopped, signal) == Phase::Stopped,
        action is Finish,
{
}

/// A failure ends the run at once: no signal of failure leaves the
/// subscription in a phase from which it goes on.
pub proof fn lemma_failure_stops(phase: Phase, signal: Signal, url: Seq<char>, program_id: Seq<char>, action: Action)
    requires
        is_answer(phase, signal, url, program_id, action),
        action is Fail,
    ensures
        next_phase(phase, signal) == Phase::Stopped,
{
}

} // verus!
