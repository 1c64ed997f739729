//! The dependency resolver as a state machine: it decides which identifier to
//! look up next and what a lookup's outcome does to the resolved set. Whoever
//! drives it performs the lookups.

use vstd::prelude::*;
use crate::record::{ModRecord, ModRecordView, record_views, ids_of, string_views, copy_strings};

verus! {

/// Why a resolution failed.
#[derive(Debug)]
pub enum ResolveError {
    /// The metadata source has no artifact of this identifier for the platform version.
    ModNotFound(String),
    /// The metadata source could not be reached, or answered with malformed data.
    Transport,
}

/// The mathematical value of a [`ResolveError`].
pub ghost enum ResolveErrorView {
    ModNotFound(Seq<char>),
    Transport,
}

impl View for ResolveError {
    type V = ResolveErrorView;

    open spec fn view(&self) -> ResolveErrorView {
        match self {
            ResolveError::ModNotFound(id) => ResolveErrorView::ModNotFound(id@),
            ResolveError::Transport => ResolveErrorView::Transport,
        }
    }
}

/// What one lookup at the metadata source came back with.
#[derive(Debug)]
pub enum LookupOutcome {
    Found(ModRecord),
    NotFound,
    TransportFailure,
}

/// The mathematical value of a [`LookupOutcome`].
pub ghost enum LookupOutcomeView {
    Found(ModRecordView),
    NotFound,
    TransportFailure,
}

impl View for LookupOutcome {
    type V = LookupOutcomeView;

    open spec fn view(&self) -> LookupOutcomeView {
        match self {
            LookupOutcome::Found(r) => LookupOutcomeView::Found(r@),
            LookupOutcome::NotFound => LookupOutcomeView::NotFound,
            LookupOutcome::TransportFailure => LookupOutcomeView::TransportFailure,
        }
    }
}

/// Everything resolved so far in one run: records in the order of their
/// insertion, no identifier twice.
pub struct ResolutionState {
    records: Vec<ModRecord>,
}

impl View for ResolutionState {
    type V = Seq<ModRecordView>;

    closed spec fn view(&self) -> Seq<ModRecordView> {
        record_views(self.records@)
    }
}

impl ResolutionState {
    /// No identifier occurs twice.
    pub open spec fn wf(&self) -> bool {
        ids_of(self@).no_duplicates()
    }

    /// The empty state a run starts with.
    pub fn new() -> (s: ResolutionState)
        ensures
            s@ == Seq::<ModRecordView>::empty(),
            s.wf(),
    {
        let s = ResolutionState { records: Vec::new() };
        assert(s@ =~= Seq::<ModRecordView>::empty());
        s
    }

    /// The number of records held.
    pub fn len(&self) -> (n: usize)
        ensures
            n == self@.len(),
    {
        self.records.len()
    }

    /// Whether a record of this identifier is held.
    pub fn contains(&self, mod_id: &String) -> (b: bool)
        ensures
            b == ids_of(self@).contains(mod_id@),
    {
        let mut i: usize = 0;
        while i < self.records.len()
            invariant
                i <= self.records.len(),
                forall|k: int| 0 <= k < i ==> ids_of(self@)[k] != mod_id@,
            decreases self.records.len() - i,
        {
            if self.records[i].mod_id == *mod_id {
                assert(ids_of(self@)[i as int] == mod_id@);
                return true;
            }
            i += 1;
        }
        false
    }

    /// The one mutation: adds the record unless its identifier is already
    /// held, and says whether it was added.
    pub fn insert_if_absent(&mut self, record: ModRecord) -> (added: bool)
        requires
            old(self).wf(),
        ensures
            final(self).wf(),
            added == !ids_of(old(self)@).contains(record@.mod_id),
            final(self)@ == if added { old(self)@.push(record@) } else { old(self)@ },
    {
        if self.contains(&record.mod_id) {
            return false;
        }
        let ghost before = self@;
        self.records.push(record);
        assert(self@ =~= before.push(record@));
        assert(ids_of(self@) =~= ids_of(before).push(record@.mod_id));
        true
    }

    /// Hands the records out, in the order of their insertion.
    pub fn into_records(self) -> (v: Vec<ModRecord>)
        ensures
            record_views(v@) == self@,
    {
        self.records
    }
}

/// The pending list without its trailing identifiers that are already resolved.
pub open spec fn trim_resolved(pending: Seq<Seq<char>>, ids: Seq<Seq<char>>) -> Seq<Seq<char>>
    decreases pending.len(),
{
    if pending.len() == 0 || !ids.contains(pending.last()) {
        pending
    } else {
        trim_resolved(pending.drop_last(), ids)
    }
}

/// Trimming cuts resolved identifiers off the end, and stops at one that is
/// not resolved.
pub proof fn lemma_trim(pending: Seq<Seq<char>>, ids: Seq<Seq<char>>)
    ensures
        ({
            let t = trim_resolved(pending, ids);
            &&& t.len() <= pending.len()
            &&& t == pending.subrange(0, t.len() as int)
            &&& forall|k: int| t.len() <= k < pending.len() ==> ids.contains(#[trigger] pending[k])
            &&& t.len() > 0 ==> !ids.contains(t.last())
        }),
    decreases pending.len(),
{
    if pending.len() == 0 || !ids.contains(pending.last()) {
        assert(pending.subrange(0, pending.len() as int) =~= pending);
    } else {
        let d = pending.drop_last();
        lemma_trim(d, ids);
        let t = trim_resolved(d, ids);
        assert(t =~= pending.subrange(0, t.len() as int));
        assert forall|k: int| t.len() <= k < pending.len() implies ids.contains(
            #[trigger] pending[k],
        ) by {
            if k < d.len() {
                assert(d[k] == pending[k]);
            }
        }
    }
}

/// The mathematical value of a [`DependencyResolver`].
pub ghost struct ResolverView {
    /// The records resolved so far.
    pub resolved: Seq<ModRecordView>,
    /// Identifiers still to be visited; the last one is visited first.
    pub pending: Seq<Seq<char>>,
    /// The first failure observed, if any.
    pub failure: Option<ResolveErrorView>,
}

/// What taking the next identifier does to a resolver, and which identifier
/// it is: none once the resolver has failed or nothing unresolved is pending.
pub open spec fn take_next(s: ResolverView) -> (ResolverView, Option<Seq<char>>) {
    let t = trim_resolved(s.pending, ids_of(s.resolved));
    if s.failure.is_some() {
        (s, None)
    } else if t.len() == 0 {
        (ResolverView { pending: t, ..s }, None)
    } else {
        (ResolverView { pending: t.drop_last(), ..s }, Some(t.last()))
    }
}

/// What the outcome of looking up `mod_id` does to a resolver.
///
/// After a failure nothing changes any more. A missing artifact and a
/// transport failure become the failure. A record under another identifier
/// than the one asked for is malformed data. A record whose identifier is
/// already resolved is skipped; a new one is appended, and its declared
/// dependencies become pending.
pub open spec fn apply_outcome(s: ResolverView, mod_id: Seq<char>, outcome: LookupOutcomeView)
    -> ResolverView {
    if s.failure.is_some() {
        s
    } else {
        match outcome {
            LookupOutcomeView::NotFound => ResolverView {
                failure: Some(ResolveErrorView::ModNotFound(mod_id)),
                ..s
            },
            LookupOutcomeView::TransportFailure => ResolverView {
                failure: Some(ResolveErrorView::Transport),
                ..s
            },
            LookupOutcomeView::Found(r) => if r.mod_id != mod_id {
                ResolverView { failure: Some(ResolveErrorView::Transport), ..s }
            } else if ids_of(s.resolved).contains(mod_id) {
                s
            } else {
                ResolverView {
                    resolved: s.resolved.push(r),
                    pending: s.pending + r.declared_dependency_ids,
                    ..s
                }
            },
        }
    }
}

/// Computes the transitive closure of a requested set, one lookup at a time.
pub struct DependencyResolver {
    state: ResolutionState,
    pending: Vec<String>,
    failure: Option<ResolveError>,
}

impl View for DependencyResolver {
    type V = ResolverView;

    closed spec fn view(&self) -> ResolverView {
        ResolverView {
            resolved: self.state@,
            pending: string_views(self.pending@),
            failure: match self.failure {
                Some(e) => Some(e@),
                None => None,
            },
        }
    }
}

impl DependencyResolver {
    /// No identifier is resolved twice.
    pub open spec fn wf(&self) -> bool {
        ids_of(self@.resolved).no_duplicates()
    }

    /// Nothing is left to look up: the run failed, or nothing is pending.
    pub open spec fn complete(&self) -> bool {
        self@.failure.is_some() || self@.pending.len() == 0
    }

    /// A resolver with nothing resolved and the requested identifiers pending.
    pub fn new(requested: Vec<String>) -> (r: DependencyResolver)
        ensures
            r.wf(),
            r@ == (ResolverView {
                resolved: Seq::empty(),
                pending: string_views(requested@),
                failure: None,
            }),
    {
        DependencyResolver { state: ResolutionState::new(), pending: requested, failure: None }
    }

    /// The next identifier to look up. Pending identifiers that are resolved
    /// by now are dropped on the way.
    pub fn next_lookup(&mut self) -> (r: Option<String>)
        requires
            old(self).wf(),
        ensures
            final(self).wf(),
            final(self)@ == take_next(old(self)@).0,
            match r {
                Some(id) => take_next(old(self)@).1 == Some(id@),
                None => take_next(old(self)@).1.is_none(),
            },
    {
        if self.failure.is_some() {
            return None;
        }
        let ghost start = self@;
        let ghost ids = ids_of(start.resolved);
        loop
            invariant
                start == old(self)@,
                start.failure.is_none(),
                ids == ids_of(start.resolved),
                ids.no_duplicates(),
                self@.resolved == start.resolved,
                self@.failure == start.failure,
                self.state@ == start.resolved,
                trim_resolved(self@.pending, ids) == trim_resolved(start.pending, ids),
            decreases self.pending.len(),
        {
            let ghost before = self@.pending;
            match self.pending.pop() {
                None => {
                    assert(self@.pending =~= before);
                    assert(self@ == take_next(start).0);
                    return None;
                },
                Some(id) => {
                    assert(self@.pending =~= before.drop_last());
                    assert(id@ == before.last());
                    if !self.state.contains(&id) {
                        assert(trim_resolved(before, ids) == before);
                        assert(self@ == take_next(start).0);
                        return Some(id);
                    }
                },
            }
        }
    }

    /// Takes in what the lookup of `mod_id` came back with.
    pub fn record_outcome(&mut self, mod_id: String, outcome: LookupOutcome)
        requires
            old(self).wf(),
        ensures
            final(self).wf(),
            final(self)@ == apply_outcome(old(self)@, mod_id@, outcome@),
    {
        if self.failure.is_some() {
            return ;
        }
        match outcome {
            LookupOutcome::NotFound => {
                self.failure = Some(ResolveError::ModNotFound(mod_id));
            },
            LookupOutcome::TransportFailure => {
                self.failure = Some(ResolveError::Transport);
            },
            LookupOutcome::Found(record) => {
                if record.mod_id != mod_id {
                    self.failure = Some(ResolveError::Transport);
                } else {
                    let mut deps = copy_strings(&record.declared_dependency_ids);
                    let ghost before = string_views(self.pending@);
                    let added = self.state.insert_if_absent(record);
                    if added {
                        self.pending.append(&mut deps);
                        assert(string_views(self.pending@) =~= before
                            + record@.declared_dependency_ids);
                    }
                }
            },
        }
    }

    /// Whether the run has failed.
    pub fn has_failed(&self) -> (b: bool)
        ensures
            b == self@.failure.is_some(),
    {
        self.failure.is_some()
    }

    /// Whether nothing is left to look up.
    pub fn is_complete(&self) -> (b: bool)
        ensures
            b == self.complete(),
    {
        self.failure.is_some() || self.pending.len() == 0
    }

    /// The number of records resolved so far.
    pub fn resolved_len(&self) -> (n: usize)
        ensures
            n == self@.resolved.len(),
    {
        self.state.len()
    }

    /// The result of a complete run: the failure if there was one, and no
    /// record with it; else the resolved records in the order of insertion.
    pub fn into_result(self) -> (r: Result<Vec<ModRecord>, ResolveError>)
        requires
            self.complete(),
        ensures
            match r {
                Ok(v) => self@.failure.is_none() && record_views(v@) == self@.resolved,
                Err(e) => self@.failure == Some(e@),
            },
    {
        match self.failure {
            Some(e) => Err(e),
            None => Ok(self.state.into_records()),
        }
    }
}

} // verus!
