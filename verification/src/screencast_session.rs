//! One end-to-end capture negotiation for one requesting application.

use vstd::prelude::*;

verus! {

use crate::error::ScreenCastError;
use crate::json::{dec_digits, decode_source_spec};
use crate::screencast_stream::ScreenCastStream;
use crate::source::{Source, SourceView, Sources};

/// One raw window record from the compositor's window listing, reduced to
/// the fields the catalog reads: the numeric window id (absent when the
/// record carried none, or one that is not integer-coercible), the
/// reported title, and the icon reference that the desktop-file lookup
/// resolved for the window's application class (best-effort, so often
/// absent).
pub struct WindowRecord {
    pub id: Option<u64>,
    pub title: Option<String>,
    pub icon_path: Option<String>,
}

/// The mathematical value of a [`WindowRecord`].
pub struct WindowRecordView {
    pub id: Option<u64>,
    pub title: Option<Seq<char>>,
    pub icon_path: Option<Seq<char>>,
}

impl View for WindowRecord {
    type V = WindowRecordView;

    open spec fn view(&self) -> WindowRecordView {
        WindowRecordView {
            id: self.id,
            title: match self.title {
                Some(ref t) => Some(t@),
                None => None,
            },
            icon_path: match self.icon_path {
                Some(ref p) => Some(p@),
                None => None,
            },
        }
    }
}

/// The capture source a window record yields: none when the record has no
/// valid id (such a record is skipped, not fatal), and otherwise a window
/// source whose display name falls back to a synthesized placeholder
/// naming the window id when no title was reported.
pub open spec fn window_source_view(r: WindowRecordView) -> Option<SourceView> {
    match r.id {
        None => None,
        Some(id) => Some(
            SourceView::Window {
                window_id: id,
                window_name: match r.title {
                    Some(t) => t,
                    None => ("<Unnamed Window: ")@ + dec_digits(id as int) + (">")@,
                },
                icon_path: r.icon_path,
            },
        ),
    }
}

/// Lifecycle of one capture negotiation.  Any state may move directly to
/// `Closed`.
#[derive(Clone, Copy, PartialEq, Eq, Structural, Debug)]
pub enum SessionState {
    Created,
    SourceSelected,
    Started,
    Closed,
}

/// The compositor record call that begins capturing a chosen source: a
/// monitor is recorded by its display connector name, a window by its
/// numeric id, passed as a single-entry property bag keyed `"window-id"`.
#[derive(Clone, Debug)]
pub enum RecordCommand {
    RecordMonitor { connector: String },
    RecordWindow { window_id: u64 },
}

/// The mathematical value of a [`ScreenCastSession`].
pub struct SessionView {
    pub app_id: Seq<char>,
    pub session_handle: Seq<char>,
    pub session_object_path: Seq<char>,
    pub state: SessionState,
    pub stream_path: Option<Seq<char>>,
}

/// `sv` after its session is closed: only the state changes.
pub open spec fn close_view(sv: SessionView) -> SessionView {
    SessionView { state: SessionState::Closed, ..sv }
}

/// One capture negotiation: the requesting application's identifier, the
/// protocol-side session object (used only to signal closure), the
/// compositor-side session object (used to select, start and stop), and,
/// once a source has been selected, the stream handle.
pub struct ScreenCastSession {
    app_id: String,
    session_handle: String,
    session_object_path: String,
    state: SessionState,
    screencast_stream: Option<ScreenCastStream>,
}

impl View for ScreenCastSession {
    type V = SessionView;

    closed spec fn view(&self) -> SessionView {
        SessionView {
            app_id: self.app_id@,
            session_handle: self.session_handle@,
            session_object_path: self.session_object_path@,
            state: self.state,
            stream_path: match self.screencast_stream {
                Some(s) => Some(s@),
                None => None,
            },
        }
    }
}

impl ScreenCastSession {
    /// A stream handle exists exactly while a selected source is being
    /// recorded: never before selection, always between selection and
    /// closure.
    pub open spec fn wf(&self) -> bool {
        &&& (self@.state == SessionState::Created ==> self@.stream_path is None)
        &&& (self@.state == SessionState::SourceSelected || self@.state == SessionState::Started
            ==> self@.stream_path is Some)
    }

    /// A fresh session for `app_id`, bound to the protocol session object
    /// at `session_handle` and the compositor session object at
    /// `session_object_path`.
    pub fn new(app_id: String, session_handle: String, session_object_path: String) -> (r: Self)
        ensures
            r.wf(),
            r@ == (SessionView {
                app_id: app_id@,
                session_handle: session_handle@,
                session_object_path: session_object_path@,
                state: SessionState::Created,
                stream_path: None,
            }),
    {
        ScreenCastSession {
            app_id,
            session_handle,
            session_object_path,
            state: SessionState::Created,
            screencast_stream: None,
        }
    }

    /// The current lifecycle state.
    pub fn get_state(&self) -> (r: SessionState)
        ensures
            r == self@.state,
    {
        self.state
    }

    /// The identifier of the requesting application.
    pub fn get_app_id(&self) -> (r: &String)
        ensures
            r@ == self@.app_id,
    {
        &self.app_id
    }

    /// The protocol session object path (the registry key).
    pub fn get_session_handle(&self) -> (r: &String)
        ensures
            r@ == self@.session_handle,
    {
        &self.session_handle
    }

    /// The compositor session object path.
    pub fn get_session_object_path(&self) -> (r: &String)
        ensures
            r@ == self@.session_object_path,
    {
        &self.session_object_path
    }

    /// Decide which compositor record call follows from the picker
    /// outcome.  Valid only in `Created`; a picker failure, and a call in
    /// any later state, are rejected and the session is not touched.
    pub fn select_sources(&self, picked: &Result<Source, ScreenCastError>) -> (r: Result<
        RecordCommand,
        ScreenCastError,
    >)
        ensures
            self@.state != SessionState::Created ==> r == Err::<RecordCommand, ScreenCastError>(
                ScreenCastError::Conflict,
            ),
            self@.state == SessionState::Created ==> match picked {
                Err(_) => r == Err::<RecordCommand, ScreenCastError>(
                    ScreenCastError::SourceSelectionFailed,
                ),
                Ok(Source::Monitor { monitor_name }) => r matches Ok(
                    RecordCommand::RecordMonitor { connector },
                ) && connector@ == monitor_name@,
                Ok(Source::Window { window_id, .. }) => r matches Ok(
                    RecordCommand::RecordWindow { window_id: w },
                ) && w == window_id,
            },
    {
        if !matches!(self.state, SessionState::Created) {
            return Err(ScreenCastError::Conflict);
        }
        match picked {
            Err(_) => Err(ScreenCastError::SourceSelectionFailed),
            Ok(Source::Monitor { monitor_name }) => Ok(
                RecordCommand::RecordMonitor { connector: monitor_name.clone() },
            ),
            Ok(Source::Window { window_id, .. }) => Ok(
                RecordCommand::RecordWindow { window_id: *window_id },
            ),
        }
    }

    /// Record the outcome of the record call: on success the stream
    /// handle is attached and the session advances to `SourceSelected`;
    /// on failure the session stays in `Created` and the verb fails with
    /// `SourceSelectionFailed`.
    pub fn complete_select(&mut self, outcome: Result<ScreenCastStream, ScreenCastError>) -> (r:
        Result<(), ScreenCastError>)
        requires
            old(self).wf(),
            old(self)@.state == SessionState::Created,
        ensures
            final(self).wf(),
            match outcome {
                Ok(stream) => r == Ok::<(), ScreenCastError>(()) && final(self)@ == (SessionView {
                    state: SessionState::SourceSelected,
                    stream_path: Some(stream@),
                    ..old(self)@
                }),
                Err(_) => r == Err::<(), ScreenCastError>(ScreenCastError::SourceSelectionFailed)
                    && final(self)@ == old(self)@,
            },
    {
        match outcome {
            Ok(stream) => {
                self.screencast_stream = Some(stream);
                self.state = SessionState::SourceSelected;
                Ok(())
            },
            Err(_) => Err(ScreenCastError::SourceSelectionFailed),
        }
    }

    /// Whether the `Start` verb may proceed: only a session that has
    /// completed source selection may be started.  The compositor's own
    /// start command is issued only after this returns `Ok`.
    pub fn start(&self) -> (r: Result<(), ScreenCastError>)
        ensures
            r is Ok <==> self@.state == SessionState::SourceSelected,
            self@.state != SessionState::SourceSelected ==> r == Err::<(), ScreenCastError>(
                ScreenCastError::SourceSelectionFailed,
            ),
    {
        if matches!(self.state, SessionState::SourceSelected) {
            Ok(())
        } else {
            Err(ScreenCastError::SourceSelectionFailed)
        }
    }

    /// Resolve the concurrent start: the compositor start command and the
    /// stream-ready wait must both have succeeded; the start command's
    /// failure wins otherwise, and the session stays in `SourceSelected`
    /// so the caller may retry or close.
    pub fn complete_start(
        &mut self,
        session_start: Result<(), ScreenCastError>,
        pipewire_stream: Result<u32, ScreenCastError>,
    ) -> (r: Result<u32, ScreenCastError>)
        requires
            old(self).wf(),
            old(self)@.state == SessionState::SourceSelected,
        ensures
            final(self).wf(),
            match (session_start, pipewire_stream) {
                (Ok(_), Ok(id)) => r == Ok::<u32, ScreenCastError>(id) && final(self)@
                    == (SessionView { state: SessionState::Started, ..old(self)@ }),
                (Err(e), _) => r == Err::<u32, ScreenCastError>(e) && final(self)@ == old(self)@,
                (Ok(_), Err(e)) => r == Err::<u32, ScreenCastError>(e) && final(self)@ == old(
                    self,
                )@,
            },
    {
        match (session_start, pipewire_stream) {
            (Ok(_), Ok(id)) => {
                self.state = SessionState::Started;
                Ok(id)
            },
            (Err(e), _) => Err(e),
            (Ok(_), Err(e)) => Err(e),
        }
    }

    /// Normalize the compositor's monitor records: each display
    /// connector name becomes a monitor source, used both as display
    /// identity and as recording target.
    pub fn get_monitor_sources(connectors: Vec<String>) -> (r: Sources)
        ensures
            r@ == connectors@.map_values(|c: String| SourceView::Monitor { monitor_name: c@ }),
    {
        let mut out: Vec<Source> = Vec::new();
        let n = connectors.len();
        for i in 0..n
            invariant
                n == connectors@.len(),
                out@.map_values(|s: Source| s@) == connectors@.take(i as int).map_values(
                    |c: String| SourceView::Monitor { monitor_name: c@ },
                ),
        {
            let ghost pre = out@;
            out.push(Source::Monitor { monitor_name: connectors[i].clone() });
            proof {
                let f = |s: Source| s@;
                let g = |c: String| SourceView::Monitor { monitor_name: c@ };
                assert(pre.map_values(f).len() == pre.len());
                assert(connectors@.take(i as int).map_values(g).len() == connectors@.take(
                    i as int,
                ).len());
                assert(pre.len() == i);
                assert(out@ == pre.push(out@.last()));
                assert(f(out@.last()) == g(connectors@[i as int]));
                assert forall|k: int| 0 <= k < i + 1 implies out@.map_values(f)[k]
                    == connectors@.take(i + 1).map_values(g)[k] by {
                    if k < i {
                        assert(pre.map_values(f)[k] == connectors@.take(i as int).map_values(
                            g,
                        )[k]);
                        assert(out@[k] == pre[k]);
                        assert(connectors@.take(i + 1)[k] == connectors@.take(i as int)[k]);
                    } else {
                        assert(out@[k] == out@.last());
                        assert(connectors@.take(i + 1)[k] == connectors@[i as int]);
                    }
                }
                assert(out@.map_values(f) =~= connectors@.take(i + 1).map_values(g));
            }
        }
        proof {
            assert(connectors@.take(n as int) =~= connectors@);
        }
        Sources(out)
    }

    /// Normalize the compositor's window records.  A record without a
    /// valid integer id is skipped; a window with no reported title gets
    /// a synthesized placeholder name carrying its id; the icon
    /// reference, already resolved best-effort by the caller, is carried
    /// through.
    pub fn get_window_sources(windows: Vec<WindowRecord>) -> (r: Sources)
        ensures
            r@ == windows@.map_values(|w: WindowRecord| w@).filter_map(
                |wv: WindowRecordView| window_source_view(wv),
            ),
    {
        let mut out: Vec<Source> = Vec::new();
        let n = windows.len();
        for i in 0..n
            invariant
                n == windows@.len(),
                out@.map_values(|s: Source| s@) == windows@.take(i as int).map_values(
                    |w: WindowRecord| w@,
                ).filter_map(|wv: WindowRecordView| window_source_view(wv)),
        {
            let ghost pre = out@;
            let w = &windows[i];
            match w.id {
                None => {
                },
                Some(id) => {
                    let window_name = match &w.title {
                        Some(t) => t.clone(),
                        None => {
                            let mut name = String::new();
                            name.append("<Unnamed Window: ");
                            crate::json::push_u64(&mut name, id);
                            name.append(">");
                            proof {
                                assert(name@ =~= ("<Unnamed Window: ")@ + dec_digits(id as int)
                                    + (">")@);
                            }
                            name
                        },
                    };
                    let icon_path = match &w.icon_path {
                        Some(p) => Some(p.clone()),
                        None => None,
                    };
                    out.push(Source::Window { window_id: id, window_name, icon_path });
                },
            }
            proof {
                let f = |wv: WindowRecordView| window_source_view(wv);
                let m = |w: WindowRecord| w@;
                assert(windows@.take(i + 1).map_values(m).drop_last() =~= windows@.take(
                    i as int,
                ).map_values(m));
                assert(windows@.take(i + 1).map_values(m).last() == windows@[i as int]@);
                match w.id {
                    None => {
                        assert(out@.map_values(|s: Source| s@) =~= windows@.take(i + 1).map_values(
                            m,
                        ).filter_map(f));
                    },
                    Some(id) => {
                        assert(out@.map_values(|s: Source| s@) =~= pre.map_values(
                            |s: Source| s@,
                        ).push(out@.last()@));
                        assert(window_source_view(windows@[i as int]@) == Some(out@.last()@));
                        assert(out@.map_values(|s: Source| s@) =~= windows@.take(i + 1).map_values(
                            m,
                        ).filter_map(f));
                    },
                }
            }
        }
        proof {
            assert(windows@.take(n as int) =~= windows@);
        }
        Sources(out)
    }

    /// Interpret what the picker subprocess wrote to its standard
    /// output: nothing means the user made no selection, and output that
    /// does not decode as exactly one capture source is equally a picker
    /// failure.
    pub fn parse_picker_output(stdout: &str) -> (r: Result<Source, ScreenCastError>)
        ensures
            stdout@.len() == 0 ==> r == Err::<Source, ScreenCastError>(
                ScreenCastError::PickerFailure,
            ),
            stdout@.len() > 0 ==> match decode_source_spec(stdout@) {
                Some(v) => r matches Ok(src) && src@ == v,
                None => r == Err::<Source, ScreenCastError>(ScreenCastError::PickerFailure),
            },
    {
        if stdout.is_empty() {
            return Err(ScreenCastError::PickerFailure);
        }
        match Source::from_json(stdout) {
            Some(src) => Ok(src),
            None => Err(ScreenCastError::PickerFailure),
        }
    }

    /// Move to `Closed`.  The teardown calls themselves — stopping the
    /// compositor session, closing the protocol session object — are
    /// best-effort and are made by the caller from the object paths this
    /// session carries; their failures never propagate.
    pub fn close(&mut self)
        ensures
            final(self)@ == close_view(old(self)@),
    {
        self.state = SessionState::Closed;
    }
}

} // verus!
