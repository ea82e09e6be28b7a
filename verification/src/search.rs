//! A resolution in progress: which file to look for next, and what each
//! answer leads to.
//!
//! The search asks, the host looks on the disk and answers. A search that
//! was answered truthfully all along ends at the request's resolution.

use crate::laws::{lemma_first_file_at, lemma_first_file_none};
use crate::paths::texts;
use crate::resolver::{probes, probes_over, resolution, FileResolver, ResolveError};
use vstd::prelude::*;

verus! {

/// What the host is to do next.
#[derive(Debug)]
pub enum Action {
    /// Report whether a regular file is at this path.
    Probe(String),
    /// The request resolves to this path.
    Resolved(String),
    /// No file satisfies the request.
    Failed(ResolveError),
}

/// The state of a resolution: the files that may satisfy the request, in
/// the order of preference, and how many of them were reported absent.
#[derive(Debug)]
pub struct Search {
    base: String,
    name: String,
    queue: Vec<String>,
    next: usize,
}

/// A search as contracts see it.
pub struct SearchView {
    pub base: Seq<char>,
    pub name: Seq<char>,
    pub probes: Seq<Seq<char>>,
    pub next: nat,
}

impl SearchView {
    /// Every probe has been answered.
    pub open spec fn exhausted(self) -> bool {
        self.next >= self.probes.len()
    }

    /// The probe that waits for an answer.
    pub open spec fn pending(self) -> Seq<char>
        recommends
            !self.exhausted(),
    {
        self.probes[self.next as int]
    }

    /// The search with one more probe reported absent.
    pub open spec fn advanced(self) -> SearchView {
        SearchView { next: self.next + 1, ..self }
    }

    /// None of the probes answered so far is among `files`.
    pub open spec fn agrees_with(self, files: Set<Seq<char>>) -> bool {
        forall|j: int| 0 <= j < self.next && j < self.probes.len() ==> !files.contains(#[trigger] self.probes[j])
    }
}

/// The action that a state asks for: a probe of the pending path, or
/// failure once every probe was answered.
pub open spec fn asks(state: SearchView, action: Action) -> bool {
    if state.exhausted() {
        &&& action matches Action::Failed(e)
        &&& e.base@ == state.base
        &&& e.name@ == state.name
    } else {
        &&& action matches Action::Probe(p)
        &&& p@ == state.pending()
    }
}

impl View for Search {
    type V = SearchView;

    closed spec fn view(&self) -> SearchView {
        SearchView {
            base: self.base@,
            name: self.name@,
            probes: texts(self.queue@),
            next: self.next as nat,
        }
    }
}

impl Search {
    /// The action of the current state.
    pub fn action(&self) -> (action: Action)
        ensures
            asks(self@, action),
    {
        if self.next < self.queue.len() {
            Action::Probe(self.queue[self.next].clone())
        } else {
            Action::Failed(ResolveError { base: self.base.clone(), name: self.name.clone() })
        }
    }

    /// Takes the answer to the pending probe: `present` says whether a
    /// regular file is at that path. Where one is, the request resolves to
    /// it and the state stays. Where none is, the search moves on and
    /// returns the action of the new state. An exhausted search stays as
    /// it is and fails.
    pub fn step(&mut self, present: bool) -> (action: Action)
        ensures
            old(self)@.exhausted() ==> final(self)@ == old(self)@ && asks(old(self)@, action),
            !old(self)@.exhausted() && present ==> {
                &&& final(self)@ == old(self)@
                &&& action matches Action::Resolved(p)
                &&& p@ == old(self)@.pending()
            },
            !old(self)@.exhausted() && !present ==> {
                &&& final(self)@ == old(self)@.advanced()
                &&& asks(final(self)@, action)
            },
    {
        if self.next >= self.queue.len() {
            self.action()
        } else if present {
            Action::Resolved(self.queue[self.next].clone())
        } else {
            self.next = self.next + 1;
            self.action()
        }
    }
}

/// The regular files of a listing.
pub open spec fn listed(files: Seq<String>) -> Set<Seq<char>> {
    Set::new(|path: Seq<char>| exists|i: int| 0 <= i < files.len() && #[trigger] files[i]@ == path)
}

/// Whether `path` is in the listing.
pub fn is_listed(files: &Vec<String>, path: &String) -> (r: bool)
    ensures
        r == listed(files@).contains(path@),
{
    let mut i: usize = 0;
    while i < files.len()
        invariant
            i <= files.len(),
            forall|j: int| 0 <= j < i ==> #[trigger] files[j]@ != path@,
        decreases files.len() - i,
    {
        if files[i] == *path {
            return true;
        }
        i += 1;
    }
    false
}

impl FileResolver {
    /// Starts the resolution of `name` as requested from `base`: the
    /// search holds the request's probes and none is answered yet.
    pub fn search(&self, base: &str, name: &str) -> (s: Search)
        ensures
            s@ == (SearchView {
                base: base@,
                name: name@,
                probes: probes(self@, base@, name@),
                next: 0,
            }),
    {
        let targets = self.candidates(base, name);
        let mut queue: Vec<String> = Vec::new();
        let mut i: usize = 0;
        while i < targets.len()
            invariant
                i <= targets.len(),
                texts(queue@) == probes_over(
                    self@.patterns,
                    texts(targets@).take(i as int),
                ),
            decreases targets.len() - i,
        {
            let mut found = self.try_patterns(targets[i].as_str());
            proof {
                let upto = texts(targets@).take(i + 1);
                assert(upto.drop_last() =~= texts(targets@).take(i as int));
                assert(upto.last() == targets[i as int]@);
                assert(texts(queue@ + found@) =~= texts(queue@) + texts(found@));
            }
            queue.append(&mut found);
            i += 1;
        }
        proof {
            assert(texts(targets@).take(i as int) =~= texts(targets@));
        }
        Search { base: base.to_owned(), name: name.to_owned(), queue, next: 0 }
    }

    /// Resolves `name` as requested from `base` against a listing of the
    /// regular files: the first probe that is listed, or the error with
    /// the request where none is.
    pub fn resolve(&self, files: &Vec<String>, base: &str, name: &str) -> (r: Result<
        String,
        ResolveError,
    >)
        ensures
            match r {
                Ok(path) => resolution(self@, listed(files@), base@, name@) == Some(path@),
                Err(e) => {
                    &&& resolution(self@, listed(files@), base@, name@) is None
                    &&& e.base@ == base@
                    &&& e.name@ == name@
                },
            },
    {
        let mut search = self.search(base, name);
        let mut action = search.action();
        loop
            invariant
                search@.base == base@,
                search@.name == name@,
                search@.probes == probes(self@, base@, name@),
                search@.next <= search@.probes.len(),
                search@.agrees_with(listed(files@)),
                asks(search@, action),
            decreases search@.probes.len() - search@.next,
        {
            match action {
                Action::Probe(path) => {
                    let present = is_listed(files, &path);
                    proof {
                        if present {
                            lemma_first_file_at(
                                search@.probes,
                                listed(files@),
                                search@.next as int,
                            );
                        }
                    }
                    match search.step(present) {
                        Action::Resolved(found) => {
                            return Ok(found);
                        },
                        following => {
                            action = following;
                        },
                    }
                },
                Action::Resolved(path) => {
                    return Ok(path);
                },
                Action::Failed(e) => {
                    proof {
                        lemma_first_file_none(search@.probes, listed(files@));
                    }
                    return Err(e);
                },
            }
        }
    }
}

} // verus!
