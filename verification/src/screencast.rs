//! The protocol-facing session registry and its three verbs.
//!
//! The broker owns the map from protocol session handles to in-flight
//! capture negotiations.  The surrounding binary serializes every call
//! into this registry behind one mutual-exclusion gate, performs the
//! compositor calls and the picker run, and hands their outcomes to the
//! functions below; every protocol verb produces exactly one
//! [`VerbReply`], which carries the single `Response` notification owed
//! to the request object together with the method return.

use vstd::prelude::*;

verus! {

use crate::error::ScreenCastError;
use crate::screencast_session::{
    close_view,
    RecordCommand,
    ScreenCastSession,
    SessionState,
    SessionView,
};
use crate::screencast_stream::ScreenCastStream;
use crate::source::Source;

pub const SOURCE_TYPE_MONITOR: u32 = 1;
pub const SOURCE_TYPE_WINDOW: u32 = 2;
pub const SOURCE_TYPE_VIRTUAL: u32 = 4;

pub const CURSOR_TYPE_HIDDEN: u32 = 1;
pub const CURSOR_TYPE_EMBEDDED: u32 = 2;
pub const CURSOR_TYPE_METADATA: u32 = 4;

/// The answer to one protocol verb: exactly one `Response` notification
/// (its code in `ack_code`: 0 on success, the cancellation code 2 on
/// failure) to emit on the request object, and the method return
/// (`status` 0 on success, the generic failure 1 otherwise, with the
/// transport ids of a successful start under the `"streams"` result
/// key).  `error` names the failing step for the log; no internal detail
/// crosses the protocol boundary.
pub struct VerbReply {
    pub ack_code: u32,
    pub status: u32,
    pub streams: Vec<u32>,
    pub error: Option<ScreenCastError>,
}

/// `r` acknowledges success.
pub open spec fn ok_reply(r: VerbReply) -> bool {
    r.ack_code == 0 && r.status == 0 && r.error is None
}

/// `r` acknowledges failure on `e`, with an empty result payload.
pub open spec fn failed_reply(r: VerbReply, e: ScreenCastError) -> bool {
    r.ack_code == 2 && r.status == 1 && r.streams@ == Seq::<u32>::empty() && r.error == Some(e)
}

fn make_ok_reply() -> (r: VerbReply)
    ensures
        ok_reply(r),
        r.streams@ == Seq::<u32>::empty(),
{
    VerbReply { ack_code: 0, status: 0, streams: Vec::new(), error: None }
}

fn make_failed_reply(e: ScreenCastError) -> (r: VerbReply)
    ensures
        failed_reply(r, e),
{
    VerbReply { ack_code: 2, status: 1, streams: Vec::new(), error: Some(e) }
}

/// The first phase of `SelectSources`: either the verb is rejected with
/// its reply, or the given record call is to be issued on the compositor
/// session.
pub enum SelectStep {
    Reject(VerbReply),
    Record(RecordCommand),
}

/// A registered session is never `Closed` (a closed session leaves the
/// registry at once) and holds a stream handle exactly from selection on.
pub open spec fn session_ok(sv: SessionView) -> bool {
    &&& sv.state != SessionState::Closed
    &&& (sv.state == SessionState::Created ==> sv.stream_path is None)
    &&& (sv.state == SessionState::SourceSelected || sv.state == SessionState::Started
        ==> sv.stream_path is Some)
}

/// The session registry.  Keys are the protocol session handles; every
/// session-affecting operation goes through one serialization gate held
/// by the caller, so each function here sees the registry at rest.
pub struct ScreenCast {
    sessions: Vec<ScreenCastSession>,
}

impl ScreenCast {
    /// The registered sessions, in insertion order.
    pub closed spec fn sessions(&self) -> Seq<SessionView> {
        self.sessions@.map_values(|s: ScreenCastSession| s@)
    }

    /// Sessions are well formed and no handle is registered twice.
    pub open spec fn wf(&self) -> bool {
        &&& (forall|k: int|
            0 <= k < self.sessions().len() ==> session_ok(#[trigger] self.sessions()[k]))
        &&& (forall|k1: int, k2: int|
            0 <= k1 < self.sessions().len() && 0 <= k2 < self.sessions().len() && k1 != k2 ==> (
            #[trigger] self.sessions()[k1]).session_handle != (
            #[trigger] self.sessions()[k2]).session_handle)
    }

    /// Some session is registered under `h`.
    pub open spec fn contains_handle(&self, h: Seq<char>) -> bool {
        exists|k: int|
            0 <= k < self.sessions().len() && (#[trigger] self.sessions()[k]).session_handle == h
    }

    /// The index of the session registered under `h`.
    pub open spec fn index_of(&self, h: Seq<char>) -> int {
        choose|k: int|
            0 <= k < self.sessions().len() && (#[trigger] self.sessions()[k]).session_handle == h
    }

    /// The session registered under `h`.
    pub open spec fn session_at(&self, h: Seq<char>) -> SessionView {
        self.sessions()[self.index_of(h)]
    }

    /// An empty registry.
    pub fn new() -> (r: Self)
        ensures
            r.wf(),
            r.sessions() == Seq::<SessionView>::empty(),
    {
        let r = ScreenCast { sessions: Vec::new() };
        proof {
            assert(r.sessions() =~= Seq::<SessionView>::empty());
        }
        r
    }

    /// The index of the session registered under `session_handle`.
    fn find_index(&self, session_handle: &String) -> (r: Option<usize>)
        requires
            self.wf(),
        ensures
            match r {
                Some(k) => k < self.sessions().len() && self.sessions()[k as int].session_handle
                    == session_handle@ && k == self.index_of(session_handle@),
                None => !self.contains_handle(session_handle@),
            },
    {
        let n = self.sessions.len();
        for i in 0..n
            invariant
                self.wf(),
                n == self.sessions@.len(),
                forall|k: int|
                    0 <= k < i ==> (#[trigger] self.sessions()[k]).session_handle
                        != session_handle@,
        {
            if *self.sessions[i].get_session_handle() == *session_handle {
                proof {
                    assert(self.sessions()[i as int].session_handle == session_handle@);
                    assert(self.contains_handle(session_handle@));
                    let kk = self.index_of(session_handle@);
                    assert(0 <= kk < self.sessions().len() && self.sessions()[kk].session_handle
                        == session_handle@);
                    if kk < i as int {
                        assert(self.sessions()[kk].session_handle != self.sessions()[
                        i as int].session_handle);
                    } else if kk > i as int {
                        assert(self.sessions()[i as int].session_handle != self.sessions()[
                        kk].session_handle);
                    }
                    assert(kk == i as int);
                }
                return Some(i);
            }
            proof {
                assert(self.sessions()[i as int] == self.sessions@[i as int]@);
            }
        }
        None
    }

    /// Handle `CreateSession`.  `compositor_session` is what the
    /// compositor's session-creation call produced: the object path of
    /// the new compositor session, or its failure.  A handle that is
    /// already registered is rejected as a conflict; otherwise, on
    /// success, a fresh session is registered under `session_handle`.
    pub fn create_session(
        &mut self,
        session_handle: &String,
        app_id: &String,
        compositor_session: Result<String, ScreenCastError>,
    ) -> (r: VerbReply)
        requires
            old(self).wf(),
        ensures
            final(self).wf(),
            old(self).contains_handle(session_handle@) ==> failed_reply(
                r,
                ScreenCastError::Conflict,
            ) && final(self).sessions() == old(self).sessions(),
            !old(self).contains_handle(session_handle@) ==> match compositor_session {
                Ok(path) => ok_reply(r) && r.streams@ == Seq::<u32>::empty() && final(self).sessions() == old(self).sessions().push(
                    SessionView {
                        app_id: app_id@,
                        session_handle: session_handle@,
                        session_object_path: path@,
                        state: SessionState::Created,
                        stream_path: None,
                    },
                ),
                Err(e) => failed_reply(r, e) && final(self).sessions() == old(self).sessions(),
            },
    {
        if self.find_index(session_handle).is_some() {
            return make_failed_reply(ScreenCastError::Conflict);
        }
        match compositor_session {
            Ok(path) => {
                let session = ScreenCastSession::new(
                    app_id.clone(),
                    session_handle.clone(),
                    path,
                );
                self.sessions.push(session);
                proof {
                    assert(self.sessions() =~= old(self).sessions().push(
                        self.sessions@[self.sessions@.len() - 1]@,
                    ));
                    assert forall|k1: int, k2: int|
                        0 <= k1 < self.sessions().len() && 0 <= k2 < self.sessions().len() && k1
                        != k2 implies (#[trigger] self.sessions()[k1]).session_handle != (
                    #[trigger] self.sessions()[k2]).session_handle by {
                        assert(!old(self).contains_handle(session_handle@));
                        if k2 == self.sessions().len() - 1 && k1 < k2 {
                            assert(old(self).sessions()[k1].session_handle != session_handle@);
                        }
                        if k1 == self.sessions().len() - 1 && k2 < k1 {
                            assert(old(self).sessions()[k2].session_handle != session_handle@);
                        }
                    }
                }
                make_ok_reply()
            },
            Err(e) => make_failed_reply(e),
        }
    }

    /// The lookup-and-decide phase of `SelectSources`: an unregistered
    /// handle is rejected with `SessionNotFound`, a session past
    /// `Created` as a conflict, and a failed pick with
    /// `SourceSelectionFailed`; otherwise the record call that matches
    /// the picked source is returned for the caller to issue.  A
    /// rejection carries the verb's single reply.
    pub fn select_sources(&self, session_handle: &String, picked: &Result<
        Source,
        ScreenCastError,
    >) -> (r: SelectStep)
        requires
            self.wf(),
        ensures
            !self.contains_handle(session_handle@) ==> (r matches SelectStep::Reject(rep)
                && failed_reply(rep, ScreenCastError::SessionNotFound)),
            self.contains_handle(session_handle@) && self.session_at(session_handle@).state
                != SessionState::Created ==> (r matches SelectStep::Reject(rep) && failed_reply(
                rep,
                ScreenCastError::Conflict,
            )),
            self.contains_handle(session_handle@) && self.session_at(session_handle@).state
                == SessionState::Created ==> match picked {
                Err(_) => r matches SelectStep::Reject(rep) && failed_reply(
                    rep,
                    ScreenCastError::SourceSelectionFailed,
                ),
                Ok(Source::Monitor { monitor_name }) => r matches SelectStep::Record(
                    RecordCommand::RecordMonitor { connector },
                ) && connector@ == monitor_name@,
                Ok(Source::Window { window_id, .. }) => r matches SelectStep::Record(
                    RecordCommand::RecordWindow { window_id: w },
                ) && w == window_id,
            },
    {
        match self.find_index(session_handle) {
            None => SelectStep::Reject(make_failed_reply(ScreenCastError::SessionNotFound)),
            Some(k) => {
                let session = &self.sessions[k];
                proof {
                    assert(session@ == self.session_at(session_handle@));
                }
                match session.select_sources(picked) {
                    Ok(cmd) => SelectStep::Record(cmd),
                    Err(e) => SelectStep::Reject(make_failed_reply(e)),
                }
            },
        }
    }

    /// The completion phase of `SelectSources`: on a successful record
    /// call the produced stream handle is attached and the session
    /// advances to `SourceSelected`; on failure the session is left in
    /// `Created`.  Exactly one reply is produced either way.
    pub fn select_sources_finish(&mut self, session_handle: &String, outcome: Result<
        ScreenCastStream,
        ScreenCastError,
    >) -> (r: VerbReply)
        requires
            old(self).wf(),
        ensures
            final(self).wf(),
            !old(self).contains_handle(session_handle@) ==> failed_reply(
                r,
                ScreenCastError::SessionNotFound,
            ) && final(self).sessions() == old(self).sessions(),
            old(self).contains_handle(session_handle@) && old(self).session_at(
                session_handle@,
            ).state != SessionState::Created ==> failed_reply(r, ScreenCastError::Conflict)
                && final(self).sessions() == old(self).sessions(),
            old(self).contains_handle(session_handle@) && old(self).session_at(
                session_handle@,
            ).state == SessionState::Created ==> match outcome {
                Ok(stream) => ok_reply(r) && final(self).sessions() == old(self).sessions().update(
                    old(self).index_of(session_handle@),
                    SessionView {
                        state: SessionState::SourceSelected,
                        stream_path: Some(stream@),
                        ..old(self).session_at(session_handle@)
                    },
                ),
                Err(_) => failed_reply(r, ScreenCastError::SourceSelectionFailed) && final(self).sessions() == old(self).sessions(),
            },
    {
        match self.find_index(session_handle) {
            None => make_failed_reply(ScreenCastError::SessionNotFound),
            Some(k) => {
                let state_created = matches!(
                    self.sessions[k].get_state(),
                    SessionState::Created
                );
                if !state_created {
                    proof {
                        assert(final(self).sessions() =~= old(self).sessions());
                    }
                    return make_failed_reply(ScreenCastError::Conflict);
                }
                let session = &mut self.sessions[k];
                match session.complete_select(outcome) {
                    Ok(_) => {
                        proof {
                            assert(self.sessions() =~= old(self).sessions().update(
                                k as int,
                                self.sessions()[k as int],
                            ));
                        }
                        make_ok_reply()
                    },
                    Err(e) => {
                        proof {
                            assert(self.sessions() =~= old(self).sessions());
                        }
                        make_failed_reply(e)
                    },
                }
            },
        }
    }

    /// The permission phase of `Start`: an unregistered handle is
    /// rejected with `SessionNotFound`, and a session that has not
    /// completed source selection is rejected without the compositor's
    /// start command ever being issued.  The caller invokes the
    /// compositor only on `Ok`.
    pub fn start(&self, session_handle: &String) -> (r: Result<(), VerbReply>)
        requires
            self.wf(),
        ensures
            !self.contains_handle(session_handle@) ==> (r matches Err(rep) && failed_reply(
                rep,
                ScreenCastError::SessionNotFound,
            )),
            self.contains_handle(session_handle@) && self.session_at(session_handle@).state
                != SessionState::SourceSelected ==> (r matches Err(rep) && failed_reply(
                rep,
                ScreenCastError::SourceSelectionFailed,
            )),
            r is Ok <==> self.contains_handle(session_handle@) && self.session_at(
                session_handle@,
            ).state == SessionState::SourceSelected,
    {
        match self.find_index(session_handle) {
            None => Err(make_failed_reply(ScreenCastError::SessionNotFound)),
            Some(k) => {
                let session = &self.sessions[k];
                proof {
                    assert(session@ == self.session_at(session_handle@));
                }
                match session.start() {
                    Ok(_) => Ok(()),
                    Err(e) => Err(make_failed_reply(e)),
                }
            },
        }
    }

    /// The completion phase of `Start`: when both the compositor start
    /// command and the stream-ready wait succeeded, the session is
    /// `Started` and the transport id is packaged as the single entry
    /// under the `"streams"` result key; the first failure wins
    /// otherwise and the session stays in `SourceSelected`.
    pub fn start_finish(
        &mut self,
        session_handle: &String,
        session_start: Result<(), ScreenCastError>,
        pipewire_stream: Result<u32, ScreenCastError>,
    ) -> (r: VerbReply)
        requires
            old(self).wf(),
        ensures
            final(self).wf(),
            !old(self).contains_handle(session_handle@) ==> failed_reply(
                r,
                ScreenCastError::SessionNotFound,
            ) && final(self).sessions() == old(self).sessions(),
            old(self).contains_handle(session_handle@) && old(self).session_at(
                session_handle@,
            ).state != SessionState::SourceSelected ==> failed_reply(
                r,
                ScreenCastError::SourceSelectionFailed,
            ) && final(self).sessions() == old(self).sessions(),
            old(self).contains_handle(session_handle@) && old(self).session_at(
                session_handle@,
            ).state == SessionState::SourceSelected ==> match (session_start, pipewire_stream) {
                (Ok(_), Ok(id)) => ok_reply(r) && r.streams@ == seq![id] && final(self).sessions()
                    == old(self).sessions().update(
                    old(self).index_of(session_handle@),
                    SessionView {
                        state: SessionState::Started,
                        ..old(self).session_at(session_handle@)
                    },
                ),
                (Err(e), _) => failed_reply(r, e) && final(self).sessions() == old(self).sessions(),
                (Ok(_), Err(e)) => failed_reply(r, e) && final(self).sessions() == old(self).sessions(),
            },
    {
        match self.find_index(session_handle) {
            None => make_failed_reply(ScreenCastError::SessionNotFound),
            Some(k) => {
                let selected = matches!(
                    self.sessions[k].get_state(),
                    SessionState::SourceSelected
                );
                if !selected {
                    proof {
                        assert(final(self).sessions() =~= old(self).sessions());
                    }
                    return make_failed_reply(ScreenCastError::SourceSelectionFailed);
                }
                let session = &mut self.sessions[k];
                match session.complete_start(session_start, pipewire_stream) {
                    Ok(id) => {
                        proof {
                            assert(self.sessions() =~= old(self).sessions().update(
                                k as int,
                                self.sessions()[k as int],
                            ));
                        }
                        let mut streams: Vec<u32> = Vec::new();
                        streams.push(id);
                        proof {
                            assert(streams@ =~= seq![id]);
                        }
                        VerbReply { ack_code: 0, status: 0, streams, error: None }
                    },
                    Err(e) => {
                        proof {
                            assert(self.sessions() =~= old(self).sessions());
                        }
                        make_failed_reply(e)
                    },
                }
            },
        }
    }

    /// Remove and close every session whose owning application is
    /// `app_id`; sessions of other applications are untouched and keep
    /// their order.  The removed sessions are returned, already moved to
    /// `Closed`, so the caller can make the best-effort teardown calls.
    /// An `app_id` with no matching session is a no-op.
    pub fn on_app_closed(&mut self, app_id: &String) -> (r: Vec<ScreenCastSession>)
        requires
            old(self).wf(),
        ensures
            final(self).wf(),
            final(self).sessions() == old(self).sessions().filter(
                |sv: SessionView| sv.app_id != app_id@,
            ),
            r@.map_values(|s: ScreenCastSession| s@) == old(self).sessions().filter(
                |sv: SessionView| sv.app_id == app_id@,
            ).map_values(|sv: SessionView| close_view(sv)),
    {
        let mut kept: Vec<ScreenCastSession> = Vec::new();
        let mut removed: Vec<ScreenCastSession> = Vec::new();
        let ghost all = self.sessions@;
        let ghost mut j: int = 0;
        while self.sessions.len() > 0
            invariant
                0 <= j <= all.len(),
                self.sessions@ == all.skip(j),
                kept@.map_values(|s: ScreenCastSession| s@) == all.map_values(
                    |s: ScreenCastSession| s@,
                ).take(j).filter(|sv: SessionView| sv.app_id != app_id@),
                removed@.map_values(|s: ScreenCastSession| s@) == all.map_values(
                    |s: ScreenCastSession| s@,
                ).take(j).filter(|sv: SessionView| sv.app_id == app_id@).map_values(
                    |sv: SessionView| close_view(sv),
                ),
            decreases self.sessions@.len(),
        {
            let mut s = self.sessions.remove(0);
            let ghost views = all.map_values(|s: ScreenCastSession| s@);
            let ghost prev_kept = kept@;
            let ghost prev_removed = removed@;
            proof {
                assert(all.skip(j)[0] == all[j]);
                assert(self.sessions@ =~= all.skip(j + 1));
                assert(views.take(j + 1).drop_last() =~= views.take(j));
                assert(views.take(j + 1).last() == views[j]);
                reveal(Seq::filter);
            }
            if *s.get_app_id() == *app_id {
                s.close();
                removed.push(s);
                proof {
                    assert(removed@.map_values(|s: ScreenCastSession| s@) =~= prev_removed
                        .map_values(|s: ScreenCastSession| s@).push(close_view(views[j])));
                    assert(views.take(j + 1).filter(|sv: SessionView| sv.app_id == app_id@)
                        =~= views.take(j).filter(|sv: SessionView| sv.app_id == app_id@).push(
                        views[j],
                    ));
                    assert(views.take(j + 1).filter(|sv: SessionView| sv.app_id == app_id@)
                        .map_values(|sv: SessionView| close_view(sv)) =~= views.take(j).filter(
                        |sv: SessionView| sv.app_id == app_id@,
                    ).map_values(|sv: SessionView| close_view(sv)).push(close_view(views[j])));
                    assert(views.take(j + 1).filter(|sv: SessionView| sv.app_id != app_id@)
                        =~= views.take(j).filter(|sv: SessionView| sv.app_id != app_id@));
                }
            } else {
                kept.push(s);
                proof {
                    assert(kept@.map_values(|s: ScreenCastSession| s@) =~= prev_kept.map_values(
                        |s: ScreenCastSession| s@,
                    ).push(views[j]));
                    assert(views.take(j + 1).filter(|sv: SessionView| sv.app_id != app_id@)
                        =~= views.take(j).filter(|sv: SessionView| sv.app_id != app_id@).push(
                        views[j],
                    ));
                    assert(views.take(j + 1).filter(|sv: SessionView| sv.app_id == app_id@)
                        =~= views.take(j).filter(|sv: SessionView| sv.app_id == app_id@));
                }
            }
            proof {
                j = j + 1;
            }
        }
        proof {
            let views = all.map_values(|s: ScreenCastSession| s@);
            assert(views.take(j) =~= views);
        }
        self.sessions = kept;
        proof {
            lemma_filter_keeps_wf(
                old(self).sessions(),
                |sv: SessionView| sv.app_id != app_id@,
            );
        }
        removed
    }

    /// The supported cursor-visibility modes: hidden, embedded and
    /// metadata-overlay.
    pub fn available_cursor_modes() -> (r: u32)
        ensures
            r == 7,
    {
        proof {
            assert(CURSOR_TYPE_HIDDEN | CURSOR_TYPE_EMBEDDED | CURSOR_TYPE_METADATA == 7u32)
                by (bit_vector);
        }
        CURSOR_TYPE_HIDDEN | CURSOR_TYPE_EMBEDDED | CURSOR_TYPE_METADATA
    }

    /// The supported source kinds: monitor, window and virtual.
    pub fn available_source_types() -> (r: u32)
        ensures
            r == 7,
    {
        proof {
            assert(SOURCE_TYPE_MONITOR | SOURCE_TYPE_WINDOW | SOURCE_TYPE_VIRTUAL == 7u32)
                by (bit_vector);
        }
        SOURCE_TYPE_MONITOR | SOURCE_TYPE_WINDOW | SOURCE_TYPE_VIRTUAL
    }

    /// The advertised protocol version.
    pub fn version() -> (r: u32)
        ensures
            r == 5,
    {
        5
    }
}

/// Filtering a well-formed session sequence keeps it well formed.
proof fn lemma_filter_keeps_wf(views: Seq<SessionView>, pred: spec_fn(SessionView) -> bool)
    requires
        forall|k: int| 0 <= k < views.len() ==> session_ok(#[trigger] views[k]),
        forall|k1: int, k2: int|
            0 <= k1 < k2 < views.len() ==> (#[trigger] views[k1]).session_handle != (
            #[trigger] views[k2]).session_handle,
    ensures
        forall|k: int| 0 <= k < views.filter(pred).len() ==> views.contains(
            #[trigger] views.filter(pred)[k],
        ),
        forall|k: int| 0 <= k < views.filter(pred).len() ==> session_ok(
            #[trigger] views.filter(pred)[k],
        ),
        forall|k1: int, k2: int|
            0 <= k1 < k2 < views.filter(pred).len() ==> (#[trigger] views.filter(
                pred,
            )[k1]).session_handle != (#[trigger] views.filter(pred)[k2]).session_handle,
    decreases views.len(),
{
    reveal(Seq::filter);
    let f = views.filter(pred);
    if views.len() > 0 {
        let dl = views.drop_last();
        let fd = dl.filter(pred);
        lemma_filter_keeps_wf(dl, pred);
        assert forall|k: int| 0 <= k < f.len() implies views.contains(#[trigger] f[k])
            && session_ok(f[k]) by {
            if k < fd.len() {
                assert(dl.contains(fd[k]));
                let m = choose|m: int| 0 <= m < dl.len() && dl[m] == fd[k];
                assert(views[m] == f[k]);
            } else {
                assert(pred(views.last()) && f[k] == views.last());
                assert(views[views.len() - 1] == f[k]);
            }
        }
        assert forall|k1: int, k2: int| 0 <= k1 < k2 < f.len() implies (
        #[trigger] f[k1]).session_handle != (#[trigger] f[k2]).session_handle by {
            if k2 < fd.len() {
                assert(fd[k1].session_handle != fd[k2].session_handle);
            } else {
                assert(pred(views.last()) && f[k2] == views.last());
                assert(dl.contains(fd[k1]));
                let m = choose|m: int| 0 <= m < dl.len() && dl[m] == fd[k1];
                assert(views[m] == f[k1]);
                assert(views[m].session_handle != views[views.len() - 1].session_handle);
            }
        }
    }
}

} // verus!
