//! The error taxonomy of the broker.

use vstd::prelude::*;

verus! {

/// Every failure the broker can report or log.
///
/// `Conflict` is returned by `CreateSession` when the session handle is
/// already registered; the remaining variants follow the failure sources:
/// the compositor RPCs, the picker subprocess, the bounded stream-ready
/// wait, and the application-lifecycle watcher.
#[derive(Clone, Copy, PartialEq, Eq, Structural, Debug)]
pub enum ScreenCastError {
    /// A protocol verb named a session handle that is not registered.
    SessionNotFound,
    /// The session handle is already registered (duplicate `CreateSession`),
    /// or the session is not in a state from which sources may be selected.
    Conflict,
    /// The picker or the compositor record call failed during `SelectSources`.
    SourceSelectionFailed,
    /// The picker subprocess could not be spawned, wrote no output, or wrote
    /// output that does not decode as a capture source.
    PickerFailure,
    /// The stream-ready wait saw no notification within the timeout.
    StreamTimeout,
    /// The stream-ready notification channel ended before a notification.
    StreamClosed,
    /// A compositor method call failed.
    CompositorRpcFailure,
    /// The catalog query (monitor or window listing) failed.
    FetchFailure,
    /// The watcher's notification stream ended; fatal to the process.
    WatcherStreamTerminated,
}

} // verus!
