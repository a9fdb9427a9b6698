//! The search for a `Cargo.toml`: from a starting directory, up through its
//! ancestors, to the first directory that holds one.
//!
//! Whether a file exists is a question for the file system, so the search is
//! a state machine: the caller asks `candidate`, looks, and hands the answer
//! to `next`.

use vstd::prelude::*;

use crate::paths::{manifest_in, manifest_path_in, parent_path, path_parent};

verus! {

/// The `k`-th ancestor of the directory `start`: `start` itself for `k == 0`,
/// then the parent of each in turn, while there is one.
pub open spec fn ancestor(start: Seq<char>, k: nat) -> Option<Seq<char>>
    decreases k,
{
    if k == 0 {
        Some(start)
    } else {
        match ancestor(start, (k - 1) as nat) {
            Some(d) => parent_path(d),
            None => None,
        }
    }
}

/// A search under way: it is at the `depth`-th ancestor of where it started.
pub struct ManifestSearch {
    start: Ghost<Seq<char>>,
    depth: Ghost<nat>,
    current: String,
}

/// The mathematical value of a search under way.
pub struct SearchView {
    pub start: Seq<char>,
    pub depth: nat,
    pub current: Seq<char>,
}

impl SearchView {
    /// The directory searched is the `depth`-th ancestor of the start.
    pub open spec fn wf(self) -> bool {
        ancestor(self.start, self.depth) == Some(self.current)
    }

    /// The manifest path that the search asks about now.
    pub open spec fn candidate(self) -> Seq<char> {
        manifest_in(self.current)
    }
}

impl View for ManifestSearch {
    type V = SearchView;

    closed spec fn view(&self) -> SearchView {
        SearchView { start: self.start@, depth: self.depth@, current: self.current@ }
    }
}

/// What the search does with an answer.
pub enum SearchStep {
    /// The candidate exists: this is the manifest found.
    Found(String),
    /// It does not: the search goes on, one directory up.
    Continue(ManifestSearch),
    /// It does not, and the directory has no parent: there is no manifest.
    NotFound,
}

/// The mathematical value of a step.
pub enum SearchStepView {
    Found(Seq<char>),
    Continue(SearchView),
    NotFound,
}

impl View for SearchStep {
    type V = SearchStepView;

    open spec fn view(&self) -> SearchStepView {
        match self {
            SearchStep::Found(p) => SearchStepView::Found(p@),
            SearchStep::Continue(s) => SearchStepView::Continue(s@),
            SearchStep::NotFound => SearchStepView::NotFound,
        }
    }
}

/// One step of the search: on `exists`, the candidate is found; else the
/// search moves to the parent directory, or ends where there is none.
pub open spec fn search_step(s: SearchView, exists: bool) -> SearchStepView {
    if exists {
        SearchStepView::Found(s.candidate())
    } else {
        match parent_path(s.current) {
            Some(p) => SearchStepView::Continue(
                SearchView { start: s.start, depth: s.depth + 1, current: p },
            ),
            None => SearchStepView::NotFound,
        }
    }
}

impl ManifestSearch {
    /// A search that starts in `starting_dir`.
    pub fn new(starting_dir: &str) -> (s: ManifestSearch)
        ensures
            s@ == (SearchView { start: starting_dir@, depth: 0, current: starting_dir@ }),
            s@.wf(),
    {
        ManifestSearch {
            start: Ghost(starting_dir@),
            depth: Ghost(0),
            current: String::from_str(starting_dir),
        }
    }

    /// The path whose existence decides the next step: `Cargo.toml` in the
    /// directory searched now.
    pub fn candidate(&self) -> (path: String)
        ensures
            path@ == self@.candidate(),
    {
        manifest_path_in(self.current.as_str())
    }

    /// The step the search takes when the candidate does or does not exist.
    pub fn next(self, candidate_exists: bool) -> (step: SearchStep)
        requires
            self@.wf(),
        ensures
            step@ == search_step(self@, candidate_exists),
            step matches SearchStep::Continue(s) ==> s@.wf(),
    {
        if candidate_exists {
            return SearchStep::Found(self.candidate());
        }
        match path_parent(self.current.as_str()) {
            Some(parent) => {
                let ghost d = self.depth@;
                let next = ManifestSearch {
                    start: self.start,
                    depth: Ghost(d + 1),
                    current: parent,
                };
                proof {
                    assert(ancestor(self.start@, d + 1) == parent_path(self.current@));
                }
                SearchStep::Continue(next)
            },
            None => SearchStep::NotFound,
        }
    }
}

/// The search visits the ancestors of its start in order, and the manifest it
/// finds is the one in the directory it has reached: a manifest found by a
/// well-formed search is `Cargo.toml` in an ancestor of the start, and the
/// search that goes on stands one ancestor further up.
pub proof fn law_search_follows_ancestors(s: SearchView, exists: bool)
    requires
        s.wf(),
    ensures
        search_step(s, exists) matches SearchStepView::Found(p) ==> p == manifest_in(
            ancestor(s.start, s.depth).unwrap(),
        ),
        search_step(s, exists) matches SearchStepView::Continue(t) ==> t.wf() && t.start == s.start
            && t.depth == s.depth + 1,
        search_step(s, exists) is NotFound ==> !exists && ancestor(s.start, s.depth + 1) is None,
{
}

} // verus!
