use vstd::prelude::*;
use std::collections::HashMap;
use vstd::string::StringSliceAdditionalSpecFns;
use crate::configuration::Configuration;
use crate::request::RequestType;
use crate::verb_hash::{build_verb_table, verb_table};

verus! {

/// A connected client. The game-side state it will carry is not part of
/// the ingestion pipeline.
pub struct RemoteClient {}

/// The life of a session.
#[derive(Clone, Copy, Debug, PartialEq, Eq, Structural)]
pub enum SessionPhase {
    /// Configuration read; the verb table is being built.
    Starting,
    /// The listener is bound and the funnel runs; no batch has come yet.
    Listening,
    /// Batches are being processed.
    Running,
    /// Termination was asked for; no new batch is taken.
    Draining,
    /// Terminal.
    Stopped,
}

/// What the session loop observes.
#[derive(Clone, Copy, Debug, PartialEq, Eq, Structural)]
pub enum SessionEvent {
    /// The listener was bound and the funnel started.
    ListenerReady,
    /// The listener could not be bound.
    BindFailed,
    /// A batch arrived from the funnel.
    BatchReceived,
    /// The termination flag was seen set.
    QuitRequested,
    /// The funnel is gone or reported a fatal error.
    FunnelLost,
    /// Whatever was in flight at shutdown has finished or been abandoned.
    Drained,
}

/// The phase that follows `p` on event `e`.
pub open spec fn next_phase(p: SessionPhase, e: SessionEvent) -> SessionPhase {
    match (p, e) {
        (SessionPhase::Stopped, _) => SessionPhase::Stopped,
        (_, SessionEvent::BindFailed) => SessionPhase::Stopped,
        (_, SessionEvent::FunnelLost) => SessionPhase::Stopped,
        (SessionPhase::Draining, SessionEvent::Drained) => SessionPhase::Stopped,
        (SessionPhase::Draining, _) => SessionPhase::Draining,
        (_, SessionEvent::QuitRequested) => SessionPhase::Draining,
        (SessionPhase::Starting, SessionEvent::ListenerReady) => SessionPhase::Listening,
        (SessionPhase::Listening, SessionEvent::BatchReceived) => SessionPhase::Running,
        (SessionPhase::Running, SessionEvent::BatchReceived) => SessionPhase::Running,
        (q, _) => q,
    }
}

impl SessionPhase {
    /// The phase that follows this one on `e`.
    pub fn next(self, e: SessionEvent) -> (r: SessionPhase)
        ensures
            r == next_phase(self, e),
    {
        match (self, e) {
            (SessionPhase::Stopped, _) => SessionPhase::Stopped,
            (_, SessionEvent::BindFailed) => SessionPhase::Stopped,
            (_, SessionEvent::FunnelLost) => SessionPhase::Stopped,
            (SessionPhase::Draining, SessionEvent::Drained) => SessionPhase::Stopped,
            (SessionPhase::Draining, _) => SessionPhase::Draining,
            (_, SessionEvent::QuitRequested) => SessionPhase::Draining,
            (SessionPhase::Starting, SessionEvent::ListenerReady) => SessionPhase::Listening,
            (SessionPhase::Listening, SessionEvent::BatchReceived) => SessionPhase::Running,
            (SessionPhase::Running, SessionEvent::BatchReceived) => SessionPhase::Running,
            (q, _) => q,
        }
    }

    /// Whether a batch handed over in this phase is processed.
    pub fn takes_batches(self) -> (r: bool)
        ensures
            r == (self == SessionPhase::Listening || self == SessionPhase::Running),
    {
        match self {
            SessionPhase::Listening | SessionPhase::Running => true,
            _ => false,
        }
    }
}

/// Once stopped, a session stays stopped; once draining, it takes no batch
/// again.
pub proof fn lemma_shutdown_is_final(p: SessionPhase, e: SessionEvent)
    ensures
        p == SessionPhase::Stopped ==> next_phase(p, e) == SessionPhase::Stopped,
        p == SessionPhase::Draining ==> next_phase(p, e) == SessionPhase::Draining
            || next_phase(p, e) == SessionPhase::Stopped,
{
}

/// The owner of the configuration and of the ingestion pipeline.
pub struct Session<'a> {
    pub config: &'a Configuration,
    pub phase: SessionPhase,
    pub quit: bool,
}

impl<'a> Session<'a> {
    pub fn new(conf: &'a Configuration) -> (r: Session<'a>)
        ensures
            r.config == conf,
            r.phase == SessionPhase::Starting,
            !r.quit,
    {
        Session { config: conf, phase: SessionPhase::Starting, quit: false }
    }

    /// Builds the table that maps the hash of each known verb under
    /// `validation_token` to its request type.
    pub fn create_request_type_hashes(&self, validation_token: &str) -> (r: HashMap<u128, RequestType>)
        ensures
            r@ == verb_table(validation_token.spec_bytes()),
    {
        build_verb_table(validation_token.as_bytes())
    }

    /// Moves the session on by one event.
    pub fn observe(&mut self, e: SessionEvent)
        ensures
            final(self).phase == next_phase(old(self).phase, e),
            final(self).config == old(self).config,
            final(self).quit == old(self).quit,
    {
        self.phase = self.phase.next(e);
    }
}

} // verus!
