//! Shared per-pane browsing state for frontends.

use vstd::prelude::*;
use crate::domain::{BackendId, BackendPath};

verus! {

/// Backend-agnostic state for one browser pane: a location with back and
/// forward history.
#[derive(Debug, PartialEq, Eq)]
pub struct PaneSession {
    backend: BackendId,
    location: BackendPath,
    back: Vec<BackendPath>,
    forward: Vec<BackendPath>,
}

/// Mathematical value of a pane session.
pub struct PaneView {
    /// Backend identifier text.
    pub backend: Seq<char>,
    /// Current location.
    pub location: Seq<char>,
    /// Back stack, most recent last.
    pub back: Seq<Seq<char>>,
    /// Forward stack, most recent last.
    pub forward: Seq<Seq<char>>,
}

/// Texts of a sequence of paths.
pub open spec fn paths_view(v: Seq<BackendPath>) -> Seq<Seq<char>> {
    v.map_values(|p: BackendPath| p@)
}

impl View for PaneSession {
    type V = PaneView;

    closed spec fn view(&self) -> PaneView {
        PaneView {
            backend: self.backend@,
            location: self.location@,
            back: paths_view(self.back@),
            forward: paths_view(self.forward@),
        }
    }
}

/// State after navigating to a location; navigating to the current location changes nothing.
pub open spec fn navigated(v: PaneView, destination: Seq<char>) -> PaneView {
    if destination == v.location {
        v
    } else {
        PaneView { backend: v.backend, location: destination, back: v.back.push(v.location), forward: seq![] }
    }
}

/// State after Back (unchanged when there is no history).
pub open spec fn went_back(v: PaneView) -> PaneView {
    if v.back.len() == 0 {
        v
    } else {
        PaneView {
            backend: v.backend,
            location: v.back.last(),
            back: v.back.drop_last(),
            forward: v.forward.push(v.location),
        }
    }
}

/// State after Forward (unchanged when there is no forward history).
pub open spec fn went_forward(v: PaneView) -> PaneView {
    if v.forward.len() == 0 {
        v
    } else {
        PaneView {
            backend: v.backend,
            location: v.forward.last(),
            back: v.back.push(v.location),
            forward: v.forward.drop_last(),
        }
    }
}

impl PaneSession {
    /// Creates a pane session at an initial backend location.
    pub fn new(backend: BackendId, location: BackendPath) -> (r: PaneSession)
        ensures
            r@ == (PaneView { backend: backend@, location: location@, back: seq![], forward: seq![] }),
    {
        let r = PaneSession { backend, location, back: Vec::new(), forward: Vec::new() };
        assert(paths_view(r.back@) =~= seq![]);
        assert(paths_view(r.forward@) =~= seq![]);
        r
    }

    /// Returns the configured backend identifier.
    pub fn backend(&self) -> (r: &BackendId)
        ensures
            r@ == self@.backend,
    {
        &self.backend
    }

    /// Returns the current backend location.
    pub fn location(&self) -> (r: &BackendPath)
        ensures
            r@ == self@.location,
    {
        &self.location
    }

    /// Returns whether Back can navigate.
    pub fn can_go_back(&self) -> (r: bool)
        ensures
            r == (self@.back.len() > 0),
    {
        self.back.len() > 0
    }

    /// Returns whether Forward can navigate.
    pub fn can_go_forward(&self) -> (r: bool)
        ensures
            r == (self@.forward.len() > 0),
    {
        self.forward.len() > 0
    }

    /// Returns the location Back would select.
    pub fn back_location(&self) -> (r: Option<&BackendPath>)
        ensures
            r is Some <==> self@.back.len() > 0,
            r matches Some(p) ==> p@ == self@.back.last(),
    {
        let n = self.back.len();
        if n == 0 {
            None
        } else {
            Some(&self.back[n - 1])
        }
    }

    /// Returns the location Forward would select.
    pub fn forward_location(&self) -> (r: Option<&BackendPath>)
        ensures
            r is Some <==> self@.forward.len() > 0,
            r matches Some(p) ==> p@ == self@.forward.last(),
    {
        let n = self.forward.len();
        if n == 0 {
            None
        } else {
            Some(&self.forward[n - 1])
        }
    }

    /// Navigates to a new location and records history; forward history is cleared.
    pub fn navigate_to(&mut self, destination: BackendPath)
        ensures
            final(self)@ == navigated(old(self)@, destination@),
    {
        if destination.same_as(&self.location) {
            return;
        }
        let ghost before = self@;
        let current = self.location.clone();
        self.back.push(current);
        self.location = destination;
        self.forward.clear();
        proof {
            assert(paths_view(self.back@) =~= before.back.push(before.location));
            assert(paths_view(self.forward@) =~= seq![]);
        }
    }

    /// Moves to the previous location when available; whether it changed.
    pub fn go_back(&mut self) -> (r: bool)
        ensures
            r == (old(self)@.back.len() > 0),
            final(self)@ == went_back(old(self)@),
    {
        let ghost before = self@;
        match self.back.pop() {
            None => false,
            Some(previous) => {
                let current = self.location.clone();
                self.forward.push(current);
                self.location = previous;
                proof {
                    assert(paths_view(self.back@) =~= before.back.drop_last());
                    assert(paths_view(self.forward@) =~= before.forward.push(before.location));
                }
                true
            },
        }
    }

    /// Moves to the next location when available; whether it changed.
    pub fn go_forward(&mut self) -> (r: bool)
        ensures
            r == (old(self)@.forward.len() > 0),
            final(self)@ == went_forward(old(self)@),
    {
        let ghost before = self@;
        match self.forward.pop() {
            None => false,
            Some(next) => {
                let current = self.location.clone();
                self.back.push(current);
                self.location = next;
                proof {
                    assert(paths_view(self.forward@) =~= before.forward.drop_last());
                    assert(paths_view(self.back@) =~= before.back.push(before.location));
                }
                true
            },
        }
    }
}

/// Back then Forward returns to exactly the same state.
pub proof fn lemma_back_then_forward(v: PaneView)
    requires
        v.back.len() > 0,
    ensures
        went_forward(went_back(v)) == v,
{
    assert(went_back(v).forward.drop_last() =~= v.forward);
    assert(went_back(v).back.push(went_back(v).location) =~= v.back);
}

/// Forward then Back returns to exactly the same state.
pub proof fn lemma_forward_then_back(v: PaneView)
    requires
        v.forward.len() > 0,
    ensures
        went_back(went_forward(v)) == v,
{
    assert(went_forward(v).back.drop_last() =~= v.back);
    assert(went_forward(v).forward.push(went_forward(v).location) =~= v.forward);
}

/// Navigating somewhere new clears forward history, and Back returns to
/// where navigation started.
pub proof fn lemma_navigate_then_back(v: PaneView, destination: Seq<char>)
    requires
        destination != v.location,
    ensures
        navigated(v, destination).forward.len() == 0,
        went_back(navigated(v, destination)).location == v.location,
        went_back(navigated(v, destination)).back == v.back,
        went_back(navigated(v, destination)).forward == seq![destination],
{
    assert(navigated(v, destination).back.drop_last() =~= v.back);
    assert(seq![].push(destination) =~= seq![destination]);
}


/// No two neighbouring locations of a stack are the same.
pub open spec fn no_neighbour_repeats(s: Seq<Seq<char>>) -> bool {
    forall|i: int, j: int| 0 <= i && j == i + 1 && j < s.len() ==> #[trigger] s[i] != #[trigger] s[j]
}

/// Neighbouring locations of the whole history differ: within each stack, and
/// each stack's newest entry differs from the current location.
pub open spec fn history_distinct(v: PaneView) -> bool {
    &&& no_neighbour_repeats(v.back)
    &&& no_neighbour_repeats(v.forward)
    &&& v.back.len() > 0 ==> v.back.last() != v.location
    &&& v.forward.len() > 0 ==> v.forward.last() != v.location
}

/// A new session's history trivially has no repeats, and navigation, Back and
/// Forward keep it so.
pub proof fn lemma_history_stays_distinct(v: PaneView, destination: Seq<char>)
    requires
        history_distinct(v),
    ensures
        history_distinct(PaneView { backend: v.backend, location: v.location, back: seq![], forward: seq![] }),
        history_distinct(navigated(v, destination)),
        history_distinct(went_back(v)),
        history_distinct(went_forward(v)),
{
    let e: Seq<Seq<char>> = seq![];
    assert(no_neighbour_repeats(e));
    if destination != v.location {
        let b = v.back.push(v.location);
        assert forall|i: int, j: int| 0 <= i && j == i + 1 && j < b.len() implies #[trigger] b[i] != #[trigger] b[j] by {
            if j == b.len() - 1 {
                assert(b[i] == v.back.last());
            } else {
                assert(b[i] == v.back[i] && b[j] == v.back[j]);
            }
        }
    }
    if v.back.len() > 0 {
        let b = v.back.drop_last();
        let f = v.forward.push(v.location);
        assert forall|i: int, j: int| 0 <= i && j == i + 1 && j < b.len() implies #[trigger] b[i] != #[trigger] b[j] by {
            assert(b[i] == v.back[i] && b[j] == v.back[j]);
        }
        assert forall|i: int, j: int| 0 <= i && j == i + 1 && j < f.len() implies #[trigger] f[i] != #[trigger] f[j] by {
            if j == f.len() - 1 {
                assert(f[i] == v.forward.last());
            } else {
                assert(f[i] == v.forward[i] && f[j] == v.forward[j]);
            }
        }
        if b.len() > 0 {
            assert(v.back[b.len() - 1] != v.back[b.len() as int]);
        }
    }
    if v.forward.len() > 0 {
        let f = v.forward.drop_last();
        let b = v.back.push(v.location);
        assert forall|i: int, j: int| 0 <= i && j == i + 1 && j < f.len() implies #[trigger] f[i] != #[trigger] f[j] by {
            assert(f[i] == v.forward[i] && f[j] == v.forward[j]);
        }
        assert forall|i: int, j: int| 0 <= i && j == i + 1 && j < b.len() implies #[trigger] b[i] != #[trigger] b[j] by {
            if j == b.len() - 1 {
                assert(b[i] == v.back.last());
            } else {
                assert(b[i] == v.back[i] && b[j] == v.back[j]);
            }
        }
        if f.len() > 0 {
            assert(v.forward[f.len() - 1] != v.forward[f.len() as int]);
        }
    }
}

/// In a history without repeats, Back and Forward always move to a different
/// location when they move at all.
pub proof fn lemma_moves_change_location(v: PaneView)
    requires
        history_distinct(v),
    ensures
        v.back.len() > 0 ==> went_back(v).location != v.location,
        v.forward.len() > 0 ==> went_forward(v).location != v.location,
{
}

} // verus!
