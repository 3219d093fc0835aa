//! The picker's selection state.
//!
//! The interactive picker shows the monitor and window catalogs as two
//! tables and remembers at most one chosen source; clicking a row selects
//! that row's source and closes the window, and on exit the chosen
//! source, if any, is written to standard output in the boundary format.
//! The drawing itself is unverified; this module holds the state and the
//! decisions it drives.

use vstd::prelude::*;

verus! {

use crate::json::encode_source_view;
use crate::source::{Source, Sources, SourceView};

/// A copy of `s` with the same value.
fn copy_source(s: &Source) -> (r: Source)
    ensures
        r@ == s@,
{
    match s {
        Source::Monitor { monitor_name } => Source::Monitor { monitor_name: monitor_name.clone() },
        Source::Window { window_id, window_name, icon_path } => Source::Window {
            window_id: *window_id,
            window_name: window_name.clone(),
            icon_path: match icon_path {
                Some(p) => Some(p.clone()),
                None => None,
            },
        },
    }
}

/// The state of one picker run: the two catalogs and the selection.
pub struct SourceSelector {
    monitor_sources: Sources,
    window_sources: Sources,
    selected_source: Option<Source>,
}

impl SourceSelector {
    /// A fresh picker over the given catalogs, with nothing selected.
    pub fn new(monitor_sources: Sources, window_sources: Sources) -> (r: Self)
        ensures
            r.monitors() == monitor_sources@,
            r.windows() == window_sources@,
            r.selected() is None,
    {
        SourceSelector { monitor_sources, window_sources, selected_source: None }
    }

    /// The monitor catalog.
    pub closed spec fn monitors(&self) -> Seq<SourceView> {
        self.monitor_sources@
    }

    /// The window catalog.
    pub closed spec fn windows(&self) -> Seq<SourceView> {
        self.window_sources@
    }

    /// The current selection.
    pub closed spec fn selected(&self) -> Option<SourceView> {
        match self.selected_source {
            Some(ref s) => Some(s@),
            None => None,
        }
    }

    /// Select the monitor-table row at `index`.
    pub fn select_monitor(&mut self, index: usize)
        requires
            index < old(self).monitors().len(),
        ensures
            final(self).selected() == Some(old(self).monitors()[index as int]),
            final(self).monitors() == old(self).monitors(),
            final(self).windows() == old(self).windows(),
    {
        self.selected_source = Some(copy_source(&self.monitor_sources.0[index]));
    }

    /// Select the window-table row at `index`.
    pub fn select_window(&mut self, index: usize)
        requires
            index < old(self).windows().len(),
        ensures
            final(self).selected() == Some(old(self).windows()[index as int]),
            final(self).monitors() == old(self).monitors(),
            final(self).windows() == old(self).windows(),
    {
        self.selected_source = Some(copy_source(&self.window_sources.0[index]));
    }

    /// The line to write to standard output when the picker exits: the
    /// encoded selection, or nothing when no source was selected.
    pub fn on_exit(&self) -> (r: Option<String>)
        ensures
            match self.selected() {
                Some(v) => r matches Some(line) && line@ == encode_source_view(v),
                None => r is None,
            },
    {
        match &self.selected_source {
            Some(s) => Some(s.to_json()),
            None => None,
        }
    }
}

} // verus!
