//! Capture sources: the selectable monitors and windows.

use vstd::prelude::*;

verus! {

/// A selectable capture source: a monitor, identified by its display
/// connector name, or a top-level window, identified by a numeric id
/// together with a display name and an optional icon reference.
#[derive(Clone, Debug)]
pub enum Source {
    Monitor { monitor_name: String },
    Window { window_id: u64, window_name: String, icon_path: Option<String> },
}

/// The mathematical value of a [`Source`]: the same shape over character
/// sequences.
pub enum SourceView {
    Monitor { monitor_name: Seq<char> },
    Window { window_id: u64, window_name: Seq<char>, icon_path: Option<Seq<char>> },
}

impl View for Source {
    type V = SourceView;

    open spec fn view(&self) -> SourceView {
        match self {
            Source::Monitor { monitor_name } => SourceView::Monitor { monitor_name: monitor_name@ },
            Source::Window { window_id, window_name, icon_path } => SourceView::Window {
                window_id: *window_id,
                window_name: window_name@,
                icon_path: match icon_path {
                    Some(p) => Some(p@),
                    None => None,
                },
            },
        }
    }
}

impl PartialEq for Source {
    fn eq(&self, other: &Source) -> (r: bool) {
        match self {
            Source::Monitor { monitor_name: a } => match other {
                Source::Monitor { monitor_name: b } => *a == *b,
                _ => false,
            },
            Source::Window { window_id: ia, window_name: na, icon_path: pa } => match other {
                Source::Window { window_id: ib, window_name: nb, icon_path: pb } => {
                    *ia == *ib && *na == *nb && match (pa, pb) {
                        (Some(x), Some(y)) => *x == *y,
                        (None, None) => true,
                        _ => false,
                    }
                },
                _ => false,
            },
        }
    }
}

impl vstd::std_specs::cmp::PartialEqSpecImpl for Source {
    open spec fn obeys_eq_spec() -> bool {
        true
    }

    open spec fn eq_spec(&self, other: &Source) -> bool {
        self@ == other@
    }
}

/// A list of capture sources, as passed across the picker boundary.
#[derive(Clone, Debug)]
pub struct Sources(pub Vec<Source>);

impl View for Sources {
    type V = Seq<SourceView>;

    open spec fn view(&self) -> Seq<SourceView> {
        self.0@.map_values(|s: Source| s@)
    }
}

impl Sources {
    /// The sources in order.
    pub fn iter(&self) -> (r: &Vec<Source>)
        ensures
            r@.map_values(|s: Source| s@) == self@,
    {
        &self.0
    }
}

impl PartialEq for Sources {
    fn eq(&self, other: &Sources) -> (r: bool) {
        if self.0.len() != other.0.len() {
            proof {
                assert(self@.len() == self.0@.len());
                assert(other@.len() == other.0@.len());
            }
            return false;
        }
        let n = self.0.len();
        for i in 0..n
            invariant
                n == self.0.len(),
                n == other.0.len(),
                forall|j: int| 0 <= j < i ==> self.0@[j]@ == other.0@[j]@,
        {
            if !(self.0[i] == other.0[i]) {
                proof {
                    assert(self.0@[i as int]@ != other.0@[i as int]@);
                    assert(self@[i as int] == self.0@[i as int]@);
                    assert(other@[i as int] == other.0@[i as int]@);
                    assert(self@.len() == other@.len());
                    assert(self@ != other@);
                }
                return false;
            }
        }
        proof {
            assert(self@ =~= other@);
        }
        true
    }
}

impl vstd::std_specs::cmp::PartialEqSpecImpl for Sources {
    open spec fn obeys_eq_spec() -> bool {
        true
    }

    open spec fn eq_spec(&self, other: &Sources) -> bool {
        self@ == other@
    }
}

impl From<Vec<Source>> for Sources {
    fn from(value: Vec<Source>) -> (r: Sources) {
        Sources(value)
    }
}

impl vstd::std_specs::convert::FromSpecImpl<Vec<Source>> for Sources {
    open spec fn obeys_from_spec() -> bool {
        true
    }

    open spec fn from_spec(value: Vec<Source>) -> Sources {
        Sources(value)
    }
}

impl From<Sources> for Vec<Source> {
    fn from(value: Sources) -> (r: Vec<Source>) {
        value.0
    }
}

impl vstd::std_specs::convert::FromSpecImpl<Sources> for Vec<Source> {
    open spec fn obeys_from_spec() -> bool {
        true
    }

    open spec fn from_spec(value: Sources) -> Vec<Source> {
        value.0
    }
}

} // verus!
