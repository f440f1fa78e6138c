//! The bookkeeping of a full resolution: which components have been started,
//! which are finished, and what a `$ref` to each of them becomes.

use crate::error::{Failure, ResolveError};
use crate::section::Section;
use vstd::hash_map::StringHashMap;
use vstd::prelude::*;

verus! {

/// How far the resolution of one component has got.
#[derive(Debug, Clone, Copy, PartialEq, Eq, Structural)]
pub enum Progress {
    /// Resolution has started and not finished: reaching the component again
    /// means it contains itself.
    InProgress,
    /// The component is resolved, and every later `$ref` shares the result.
    Done,
}

/// What a `$ref` to a component becomes, given how far its resolution has got.
#[derive(Debug, Clone, Copy, PartialEq, Eq, Structural)]
pub enum Visit {
    /// First visit: resolve the component now; it is marked in progress.
    Start,
    /// The component is resolved already: share that result.
    Ready,
    /// The component is being resolved and contains this `$ref`: a back-edge.
    Recursive,
}

/// Per section, the progress of every component a resolution has reached.
///
/// Components of different kinds are kept apart, so that same-named
/// components of different kinds never collide.
pub struct ResolutionLedger {
    callbacks: StringHashMap<Progress>,
    examples: StringHashMap<Progress>,
    headers: StringHashMap<Progress>,
    links: StringHashMap<Progress>,
    parameters: StringHashMap<Progress>,
    request_bodies: StringHashMap<Progress>,
    responses: StringHashMap<Progress>,
    schemas: StringHashMap<Progress>,
    security_schemes: StringHashMap<Progress>,
    paths: StringHashMap<Progress>,
}

/// What visiting `name` in a section with progress `progress` gives.
pub open spec fn visit_outcome(
    progress: Map<Seq<char>, Progress>,
    name: Seq<char>,
    back_edge_allowed: bool,
    reference: Seq<char>,
) -> Result<Visit, Failure> {
    if !progress.contains_key(name) {
        Ok(Visit::Start)
    } else if progress[name] == Progress::Done {
        Ok(Visit::Ready)
    } else if back_edge_allowed {
        Ok(Visit::Recursive)
    } else {
        Err(Failure::CyclicReference { reference })
    }
}

impl ResolutionLedger {
    /// The progress of every component of `section` reached so far.
    pub closed spec fn progress(self, section: Section) -> Map<Seq<char>, Progress> {
        match section {
            Section::Callbacks => self.callbacks@,
            Section::Examples => self.examples@,
            Section::Headers => self.headers@,
            Section::Links => self.links@,
            Section::Parameters => self.parameters@,
            Section::RequestBodies => self.request_bodies@,
            Section::Responses => self.responses@,
            Section::Schemas => self.schemas@,
            Section::SecuritySchemes => self.security_schemes@,
            Section::Paths => self.paths@,
        }
    }

    /// A ledger in which nothing has been reached yet.
    pub fn new() -> (ledger: ResolutionLedger)
        ensures
            forall|section: Section| #[trigger] ledger.progress(section).is_empty(),
    {
        ResolutionLedger {
            callbacks: StringHashMap::new(),
            examples: StringHashMap::new(),
            headers: StringHashMap::new(),
            links: StringHashMap::new(),
            parameters: StringHashMap::new(),
            request_bodies: StringHashMap::new(),
            responses: StringHashMap::new(),
            schemas: StringHashMap::new(),
            security_schemes: StringHashMap::new(),
            paths: StringHashMap::new(),
        }
    }

    fn slots(&self, section: Section) -> (slots: &StringHashMap<Progress>)
        ensures
            slots@ == self.progress(section),
    {
        match section {
            Section::Callbacks => &self.callbacks,
            Section::Examples => &self.examples,
            Section::Headers => &self.headers,
            Section::Links => &self.links,
            Section::Parameters => &self.parameters,
            Section::RequestBodies => &self.request_bodies,
            Section::Responses => &self.responses,
            Section::Schemas => &self.schemas,
            Section::SecuritySchemes => &self.security_schemes,
            Section::Paths => &self.paths,
        }
    }

    fn record(&mut self, section: Section, name: &str, progress: Progress)
        ensures
            final(self).progress(section) == old(self).progress(section).insert(name@, progress),
            forall|other: Section|
                other != section ==> #[trigger] final(self).progress(other) == old(
                    self,
                ).progress(other),
    {
        let key = name.to_owned();
        match section {
            Section::Callbacks => self.callbacks.insert(key, progress),
            Section::Examples => self.examples.insert(key, progress),
            Section::Headers => self.headers.insert(key, progress),
            Section::Links => self.links.insert(key, progress),
            Section::Parameters => self.parameters.insert(key, progress),
            Section::RequestBodies => self.request_bodies.insert(key, progress),
            Section::Responses => self.responses.insert(key, progress),
            Section::Schemas => self.schemas.insert(key, progress),
            Section::SecuritySchemes => self.security_schemes.insert(key, progress),
            Section::Paths => self.paths.insert(key, progress),
        }
    }

    /// Reaches the component stored under `name` in `section` through
    /// `reference`.
    ///
    /// The first visit starts the component and marks it in progress. A visit
    /// to a finished component shares it. A visit to a component still in
    /// progress is a back-edge where `back_edge_allowed` (a schema nested in a
    /// schema), and otherwise the component contains itself:
    /// [`ResolveError::CyclicReference`] naming `reference`.
    pub fn visit(&mut self, section: Section, name: &str, back_edge_allowed: bool, reference: &str) -> (visit: Result<Visit, ResolveError>)
        ensures
            match visit {
                Ok(v) => visit_outcome(old(self).progress(section), name@, back_edge_allowed, reference@)
                    == Ok::<Visit, Failure>(v),
                Err(e) => visit_outcome(old(self).progress(section), name@, back_edge_allowed, reference@)
                    == Err::<Visit, Failure>(e@),
            },
            visit == Ok::<Visit, ResolveError>(Visit::Start) ==> final(self).progress(section)
                == old(self).progress(section).insert(name@, Progress::InProgress),
            visit != Ok::<Visit, ResolveError>(Visit::Start) ==> final(self).progress(section)
                == old(self).progress(section),
            forall|other: Section|
                other != section ==> #[trigger] final(self).progress(other) == old(
                    self,
                ).progress(other),
            keeps_progress(*old(self), *final(self)),
    {
        let current = match self.slots(section).get(name) {
            None => None,
            Some(progress) => Some(*progress),
        };
        match current {
            None => {
                self.record(section, name, Progress::InProgress);
                Ok(Visit::Start)
            },
            Some(Progress::Done) => Ok(Visit::Ready),
            Some(Progress::InProgress) => if back_edge_allowed {
                Ok(Visit::Recursive)
            } else {
                Err(ResolveError::CyclicReference { reference: reference.to_owned() })
            },
        }
    }

    /// Marks the component stored under `name` in `section` as resolved.
    pub fn finish(&mut self, section: Section, name: &str)
        ensures
            final(self).progress(section) == old(self).progress(section).insert(
                name@,
                Progress::Done,
            ),
            forall|other: Section|
                other != section ==> #[trigger] final(self).progress(other) == old(
                    self,
                ).progress(other),
            keeps_progress(*old(self), *final(self)),
    {
        self.record(section, name, Progress::Done);
    }
}

/// Whether every component reached in `before` is still reached, with no
/// finished component un-finished, in `after`.
pub open spec fn keeps_progress(before: ResolutionLedger, after: ResolutionLedger) -> bool {
    forall|section: Section, name: Seq<char>|
        #![trigger after.progress(section).contains_key(name)]
        before.progress(section).contains_key(name) ==> {
            &&& after.progress(section).contains_key(name)
            &&& before.progress(section)[name] == Progress::Done ==> after.progress(section)[name]
                == Progress::Done
        }
}

/// Once a component has been reached, no later visit starts it again,
/// however visits and finishes interleave in between: a component is resolved
/// at most once, and every other `$ref` to it shares that resolution, is a
/// back-edge, or reports a cycle.
pub proof fn law_started_once(
    reached: ResolutionLedger,
    later: ResolutionLedger,
    section: Section,
    name: Seq<char>,
    back_edge_allowed: bool,
    reference: Seq<char>,
)
    requires
        reached.progress(section).contains_key(name),
        keeps_progress(reached, later),
    ensures
        visit_outcome(later.progress(section), name, back_edge_allowed, reference) != Ok::<
            Visit,
            Failure,
        >(Visit::Start),
{
    assert(later.progress(section).contains_key(name));
}

/// A finished component stays finished: every later visit shares it.
pub proof fn law_finished_is_shared(
    finished: ResolutionLedger,
    later: ResolutionLedger,
    section: Section,
    name: Seq<char>,
    back_edge_allowed: bool,
    reference: Seq<char>,
)
    requires
        finished.progress(section).contains_key(name),
        finished.progress(section)[name] == Progress::Done,
        keeps_progress(finished, later),
    ensures
        visit_outcome(later.progress(section), name, back_edge_allowed, reference) == Ok::<
            Visit,
            Failure,
        >(Visit::Ready),
{
    assert(later.progress(section).contains_key(name));
}

/// Keeping progress is transitive, so it holds across any run of visits and
/// finishes.
pub proof fn law_keeps_progress_transitive(
    first: ResolutionLedger,
    second: ResolutionLedger,
    third: ResolutionLedger,
)
    requires
        keeps_progress(first, second),
        keeps_progress(second, third),
    ensures
        keeps_progress(first, third),
{
    assert forall|section: Section, name: Seq<char>|
        first.progress(section).contains_key(name) implies #[trigger] third.progress(
        section,
    ).contains_key(name) && (first.progress(section)[name] == Progress::Done ==> third.progress(
        section,
    )[name] == Progress::Done) by {
        assert(second.progress(section).contains_key(name));
        assert(third.progress(section).contains_key(name));
    }
}

} // verus!
