//! The compositor-side capture stream handle and its bounded
//! transport-ready wait.

use vstd::prelude::*;

verus! {

use crate::error::ScreenCastError;

/// The bound on the transport-ready wait, in milliseconds.
pub const STREAM_TIMEOUT_MS: u64 = 1000;

/// What the stream object's notification channel produced first.
#[derive(Clone, Copy, PartialEq, Eq, Structural, Debug)]
pub enum StreamSignal {
    /// The transport-ready notification, carrying the transport id.
    PipeWireStreamAdded { node_id: u32 },
    /// The channel ended before any notification arrived.
    Ended,
}

/// One compositor-side capture stream object.  It is created as soon as a
/// source has been selected — the compositor begins recording on
/// selection, not on the later `Start` verb — and is read once through
/// [`Self::wait_for_pipewire_stream`].
pub struct ScreenCastStream {
    stream_object_path: String,
}

impl View for ScreenCastStream {
    type V = Seq<char>;

    closed spec fn view(&self) -> Seq<char> {
        self.stream_object_path@
    }
}

impl ScreenCastStream {
    /// Bind a handle to the compositor stream object at the given path.
    pub fn new(stream_object_path: String) -> (r: Self)
        ensures
            r@ == stream_object_path@,
    {
        ScreenCastStream { stream_object_path }
    }

    /// The object path this handle is bound to.
    pub fn object_path(&self) -> (r: &String)
        ensures
            r@ == self@,
    {
        &self.stream_object_path
    }

    /// Resolve the bounded transport-ready wait.
    ///
    /// `first_signal` is the first event the notification channel
    /// produced, together with the milliseconds that had elapsed when it
    /// arrived, or `None` when nothing had arrived by the time the timer
    /// fired.  A notification that arrives strictly before the timeout
    /// yields its transport id; a channel that ends strictly before the
    /// timeout fails with `StreamClosed`; everything else fails with
    /// `StreamTimeout`.
    pub fn wait_for_pipewire_stream(&self, first_signal: Option<(u64, StreamSignal)>) -> (r: Result<
        u32,
        ScreenCastError,
    >)
        ensures
            match first_signal {
                Some((at_ms, signal)) => if at_ms < STREAM_TIMEOUT_MS {
                    match signal {
                        StreamSignal::PipeWireStreamAdded { node_id } => r == Ok::<
                            u32,
                            ScreenCastError,
                        >(node_id),
                        StreamSignal::Ended => r == Err::<u32, ScreenCastError>(
                            ScreenCastError::StreamClosed,
                        ),
                    }
                } else {
                    r == Err::<u32, ScreenCastError>(ScreenCastError::StreamTimeout)
                },
                None => r == Err::<u32, ScreenCastError>(ScreenCastError::StreamTimeout),
            },
    {
        match first_signal {
            Some((at_ms, signal)) => {
                if at_ms < STREAM_TIMEOUT_MS {
                    match signal {
                        StreamSignal::PipeWireStreamAdded { node_id } => Ok(node_id),
                        StreamSignal::Ended => Err(ScreenCastError::StreamClosed),
                    }
                } else {
                    Err(ScreenCastError::StreamTimeout)
                }
            },
            None => Err(ScreenCastError::StreamTimeout),
        }
    }
}

} // verus!
