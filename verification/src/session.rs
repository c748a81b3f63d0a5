//! The session state machine: connect, fetch the cluster metadata once,
//! absorb heartbeats until the first snapshot decodes, let the operator pick
//! a namespace, then stream — reconnecting once per lost connection, with a
//! fixed whole-second backoff, without resetting the selected namespace.
//! The machine decides; performing the actions (connecting, reading,
//! sleeping, rendering) is the caller's job.

use vstd::prelude::*;

use crate::text::spec_starts_with;
use crate::text::str_starts_with;
use crate::text::strip_prefix;

verus! {

/// The fixed reconnect backoff, in whole seconds.
pub const RECONNECT_BACKOFF_SECS: u64 = 3;

/// Where a re-established connection resumes.
pub enum Resume {
    /// First connection of the run: metadata comes next.
    Startup,
    /// The connection was lost while awaiting the first snapshot.
    InitialSnapshot,
    /// The connection was lost while streaming this namespace.
    Streaming { namespace: String },
}

/// The session states, in the order a run passes through them.
pub enum SessionState {
    Connecting { resume: Resume },
    FetchingMetadata,
    AwaitingInitialSnapshot,
    SelectingNamespace,
    Streaming { namespace: String },
    Stopped,
}

/// What the outside world reports back to the machine.
pub enum SessionEvent {
    ConnectSucceeded,
    ConnectFailed,
    MetadataFetched,
    MetadataFailed,
    /// An empty frame: a liveness ping, never data.
    HeartbeatFrame,
    /// A frame decoded to a snapshot.
    SnapshotDecoded,
    /// A non-empty frame that did not decode; logged and skipped.
    SnapshotRejected,
    /// The connection is no longer readable.
    ConnectionLost,
    NamespaceChosen { namespace: String },
    /// The interactive selection failed; a default namespace takes over.
    SelectionFailed,
}

/// What the caller must do next.
#[derive(Clone, Copy, PartialEq, Eq, Structural, Debug)]
pub enum SessionAction {
    /// Establish the connection to the feed.
    Connect,
    /// Fetch the cluster metadata.
    FetchMetadata,
    /// Read the next frame from the feed.
    Receive,
    /// Render the cluster status line and prompt for a namespace.
    ShowStatusAndPrompt,
    /// Render the three views of the held snapshot for the namespace.
    RenderViews,
    /// Sleep the fixed backoff, then try to connect once.
    SleepThenReconnect,
    /// Fatal: report the error and stop.
    Fail,
    /// An event this state never produces; nothing to do.
    Ignore,
}

pub enum ResumeView {
    Startup,
    InitialSnapshot,
    Streaming { namespace: Seq<char> },
}

pub enum SessionStateView {
    Connecting { resume: ResumeView },
    FetchingMetadata,
    AwaitingInitialSnapshot,
    SelectingNamespace,
    Streaming { namespace: Seq<char> },
    Stopped,
}

pub enum SessionEventView {
    ConnectSucceeded,
    ConnectFailed,
    MetadataFetched,
    MetadataFailed,
    HeartbeatFrame,
    SnapshotDecoded,
    SnapshotRejected,
    ConnectionLost,
    NamespaceChosen { namespace: Seq<char> },
    SelectionFailed,
}

impl View for Resume {
    type V = ResumeView;

    open spec fn view(&self) -> ResumeView {
        match self {
            Resume::Startup => ResumeView::Startup,
            Resume::InitialSnapshot => ResumeView::InitialSnapshot,
            Resume::Streaming { namespace } => ResumeView::Streaming { namespace: namespace@ },
        }
    }
}

impl View for SessionState {
    type V = SessionStateView;

    open spec fn view(&self) -> SessionStateView {
        match self {
            SessionState::Connecting { resume } => SessionStateView::Connecting {
                resume: resume@,
            },
            SessionState::FetchingMetadata => SessionStateView::FetchingMetadata,
            SessionState::AwaitingInitialSnapshot => SessionStateView::AwaitingInitialSnapshot,
            SessionState::SelectingNamespace => SessionStateView::SelectingNamespace,
            SessionState::Streaming { namespace } => SessionStateView::Streaming {
                namespace: namespace@,
            },
            SessionState::Stopped => SessionStateView::Stopped,
        }
    }
}

impl View for SessionEvent {
    type V = SessionEventView;

    open spec fn view(&self) -> SessionEventView {
        match self {
            SessionEvent::ConnectSucceeded => SessionEventView::ConnectSucceeded,
            SessionEvent::ConnectFailed => SessionEventView::ConnectFailed,
            SessionEvent::MetadataFetched => SessionEventView::MetadataFetched,
            SessionEvent::MetadataFailed => SessionEventView::MetadataFailed,
            SessionEvent::HeartbeatFrame => SessionEventView::HeartbeatFrame,
            SessionEvent::SnapshotDecoded => SessionEventView::SnapshotDecoded,
            SessionEvent::SnapshotRejected => SessionEventView::SnapshotRejected,
            SessionEvent::ConnectionLost => SessionEventView::ConnectionLost,
            SessionEvent::NamespaceChosen { namespace } => SessionEventView::NamespaceChosen {
                namespace: namespace@,
            },
            SessionEvent::SelectionFailed => SessionEventView::SelectionFailed,
        }
    }
}

/// The complete transition table of the session.  Heartbeats and rejected
/// snapshots never leave the receiving state; a lost connection leads to one
/// sleep-and-reconnect that keeps the place to resume; a failed reconnect,
/// metadata fetch or first connect is fatal.
pub open spec fn spec_step(s: SessionStateView, e: SessionEventView) -> (SessionStateView,
    SessionAction) {
    match (s, e) {
        (SessionStateView::Connecting { resume }, SessionEventView::ConnectSucceeded) => match resume {
            ResumeView::Startup => (SessionStateView::FetchingMetadata, SessionAction::FetchMetadata),
            ResumeView::InitialSnapshot => (
                SessionStateView::AwaitingInitialSnapshot,
                SessionAction::Receive,
            ),
            ResumeView::Streaming { namespace } => (
                SessionStateView::Streaming { namespace },
                SessionAction::Receive,
            ),
        },
        (SessionStateView::Connecting { .. }, SessionEventView::ConnectFailed) => (
            SessionStateView::Stopped,
            SessionAction::Fail,
        ),
        (SessionStateView::FetchingMetadata, SessionEventView::MetadataFetched) => (
            SessionStateView::AwaitingInitialSnapshot,
            SessionAction::Receive,
        ),
        (SessionStateView::FetchingMetadata, SessionEventView::MetadataFailed) => (
            SessionStateView::Stopped,
            SessionAction::Fail,
        ),
        (SessionStateView::AwaitingInitialSnapshot, SessionEventView::HeartbeatFrame) => (
            SessionStateView::AwaitingInitialSnapshot,
            SessionAction::Receive,
        ),
        (SessionStateView::AwaitingInitialSnapshot, SessionEventView::SnapshotRejected) => (
            SessionStateView::AwaitingInitialSnapshot,
            SessionAction::Receive,
        ),
        (SessionStateView::AwaitingInitialSnapshot, SessionEventView::SnapshotDecoded) => (
            SessionStateView::SelectingNamespace,
            SessionAction::ShowStatusAndPrompt,
        ),
        (SessionStateView::AwaitingInitialSnapshot, SessionEventView::ConnectionLost) => (
            SessionStateView::Connecting { resume: ResumeView::InitialSnapshot },
            SessionAction::SleepThenReconnect,
        ),
        (SessionStateView::SelectingNamespace, SessionEventView::NamespaceChosen { namespace }) => (
            SessionStateView::Streaming { namespace },
            SessionAction::RenderViews,
        ),
        (SessionStateView::SelectingNamespace, SessionEventView::SelectionFailed) => (
            SessionStateView::Streaming { namespace: "default_namespace"@ },
            SessionAction::RenderViews,
        ),
        (SessionStateView::Streaming { namespace }, SessionEventView::HeartbeatFrame) => (
            SessionStateView::Streaming { namespace },
            SessionAction::Receive,
        ),
        (SessionStateView::Streaming { namespace }, SessionEventView::SnapshotRejected) => (
            SessionStateView::Streaming { namespace },
            SessionAction::Receive,
        ),
        (SessionStateView::Streaming { namespace }, SessionEventView::SnapshotDecoded) => (
            SessionStateView::Streaming { namespace },
            SessionAction::RenderViews,
        ),
        (SessionStateView::Streaming { namespace }, SessionEventView::ConnectionLost) => (
            SessionStateView::Connecting { resume: ResumeView::Streaming { namespace } },
            SessionAction::SleepThenReconnect,
        ),
        (SessionStateView::Stopped, _) => (SessionStateView::Stopped, SessionAction::Fail),
        (st, _) => (st, SessionAction::Ignore),
    }
}

/// Advances the session by one event, returning the next state and the
/// action the caller must perform — exactly the transition table.
pub fn session_step(state: SessionState, event: SessionEvent) -> (r: (SessionState, SessionAction))
    ensures
        r.0@ == spec_step(state@, event@).0,
        r.1 == spec_step(state@, event@).1,
{
    match (state, event) {
        (SessionState::Connecting { resume }, SessionEvent::ConnectSucceeded) => match resume {
            Resume::Startup => (SessionState::FetchingMetadata, SessionAction::FetchMetadata),
            Resume::InitialSnapshot => (
                SessionState::AwaitingInitialSnapshot,
                SessionAction::Receive,
            ),
            Resume::Streaming { namespace } => (
                SessionState::Streaming { namespace },
                SessionAction::Receive,
            ),
        },
        (SessionState::Connecting { resume: _ }, SessionEvent::ConnectFailed) => (
            SessionState::Stopped,
            SessionAction::Fail,
        ),
        (SessionState::FetchingMetadata, SessionEvent::MetadataFetched) => (
            SessionState::AwaitingInitialSnapshot,
            SessionAction::Receive,
        ),
        (SessionState::FetchingMetadata, SessionEvent::MetadataFailed) => (
            SessionState::Stopped,
            SessionAction::Fail,
        ),
        (SessionState::AwaitingInitialSnapshot, SessionEvent::HeartbeatFrame) => (
            SessionState::AwaitingInitialSnapshot,
            SessionAction::Receive,
        ),
        (SessionState::AwaitingInitialSnapshot, SessionEvent::SnapshotRejected) => (
            SessionState::AwaitingInitialSnapshot,
            SessionAction::Receive,
        ),
        (SessionState::AwaitingInitialSnapshot, SessionEvent::SnapshotDecoded) => (
            SessionState::SelectingNamespace,
            SessionAction::ShowStatusAndPrompt,
        ),
        (SessionState::AwaitingInitialSnapshot, SessionEvent::ConnectionLost) => (
            SessionState::Connecting { resume: Resume::InitialSnapshot },
            SessionAction::SleepThenReconnect,
        ),
        (SessionState::SelectingNamespace, SessionEvent::NamespaceChosen { namespace }) => (
            SessionState::Streaming { namespace },
            SessionAction::RenderViews,
        ),
        (SessionState::SelectingNamespace, SessionEvent::SelectionFailed) => (
            SessionState::Streaming { namespace: String::from_str("default_namespace") },
            SessionAction::RenderViews,
        ),
        (SessionState::Streaming { namespace }, SessionEvent::HeartbeatFrame) => (
            SessionState::Streaming { namespace },
            SessionAction::Receive,
        ),
        (SessionState::Streaming { namespace }, SessionEvent::SnapshotRejected) => (
            SessionState::Streaming { namespace },
            SessionAction::Receive,
        ),
        (SessionState::Streaming { namespace }, SessionEvent::SnapshotDecoded) => (
            SessionState::Streaming { namespace },
            SessionAction::RenderViews,
        ),
        (SessionState::Streaming { namespace }, SessionEvent::ConnectionLost) => (
            SessionState::Connecting { resume: Resume::Streaming { namespace } },
            SessionAction::SleepThenReconnect,
        ),
        (SessionState::Stopped, _) => (SessionState::Stopped, SessionAction::Fail),
        (st, _) => (st, SessionAction::Ignore),
    }
}

/// The namespace a state is committed to, if any: the one being streamed, or
/// the one to resume with after a reconnect.
pub open spec fn spec_namespace_of(s: SessionStateView) -> Option<Seq<char>> {
    match s {
        SessionStateView::Streaming { namespace } => Some(namespace),
        SessionStateView::Connecting { resume: ResumeView::Streaming { namespace } } => Some(
            namespace,
        ),
        _ => None,
    }
}

/// Once a namespace is selected, no event resets it: every transition either
/// keeps the selected namespace — reconnection included — or stops the
/// session for good.
pub proof fn lemma_namespace_preserved(s: SessionStateView, e: SessionEventView)
    requires
        spec_namespace_of(s) is Some,
    ensures
        spec_step(s, e).0 is Stopped || spec_namespace_of(spec_step(s, e).0) == spec_namespace_of(
            s,
        ),
{
}

/// The streaming endpoint for a host: the scheme is mapped to its streaming
/// counterpart — secure to secure — and the fixed feed path is appended.
pub open spec fn spec_ws_url(host: Seq<char>) -> Seq<char> {
    if spec_starts_with(host, "https://"@) {
        "wss://"@ + host.skip("https://"@.len() as int) + "/ws"@
    } else if spec_starts_with(host, "http://"@) {
        "ws://"@ + host.skip("http://"@.len() as int) + "/ws"@
    } else {
        "ws://"@ + host + "/ws"@
    }
}

/// Derives the streaming endpoint from the host the operator gave.
pub fn websocket_url(host: &str) -> (r: String)
    ensures
        r@ == spec_ws_url(host@),
{
    let mut r: String;
    if str_starts_with(host, "https://") {
        r = String::from_str("wss://");
        let rest = strip_prefix(host, "https://");
        r.append(rest);
    } else if str_starts_with(host, "http://") {
        r = String::from_str("ws://");
        let rest = strip_prefix(host, "http://");
        r.append(rest);
    } else {
        r = String::from_str("ws://");
        r.append(host);
    }
    r.append("/ws");
    proof {
        assert(r@ =~= spec_ws_url(host@));
    }
    r
}

} // verus!
