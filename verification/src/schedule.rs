//! Why the resolver ends with the closure in whatever order its lookups are
//! made and answered: what every step keeps true.

use vstd::prelude::*;
use crate::record::{ModRecordView, ids_of};
use crate::resolver::{
    LookupOutcomeView, ResolveErrorView, ResolverView, apply_outcome, lemma_trim, take_next,
    trim_resolved,
};
use crate::closure::{
    all_found, closure_needs_all_found, is_closure, is_path, lemma_closed_holds_path,
    lemma_dependency_reachable, lemma_requested_reachable, reachable,
};

verus! {

/// The identifier is resolved, pending, or handed out and not yet answered.
pub open spec fn known(s: ResolverView, in_flight: Set<Seq<char>>, mod_id: Seq<char>) -> bool {
    ids_of(s.resolved).contains(mod_id) || s.pending.contains(mod_id) || in_flight.contains(mod_id)
}

/// What holds of a resolver that has not failed, at every moment of a run
/// against `source`, with the lookups of `in_flight` handed out and not yet
/// answered: all it holds is reachable, what is resolved is the source's,
/// and nothing that was requested or declared by a resolved record is lost.
pub open spec fn on_track(
    source: Map<Seq<char>, ModRecordView>,
    requested: Seq<Seq<char>>,
    s: ResolverView,
    in_flight: Set<Seq<char>>,
) -> bool {
    &&& s.failure.is_none()
    &&& ids_of(s.resolved).no_duplicates()
    &&& forall|i: int|
        0 <= i < s.resolved.len() ==> source.contains_key(#[trigger] s.resolved[i].mod_id)
            && source[s.resolved[i].mod_id] == s.resolved[i] && reachable(
            source,
            requested,
            s.resolved[i].mod_id,
        )
    &&& forall|k: int|
        0 <= k < s.pending.len() ==> reachable(source, requested, #[trigger] s.pending[k])
    &&& forall|x: Seq<char>| #[trigger] in_flight.contains(x) ==> reachable(source, requested, x)
    &&& forall|k: int| 0 <= k < requested.len() ==> known(s, in_flight, #[trigger] requested[k])
    &&& forall|i: int, j: int|
        0 <= i < s.resolved.len() && 0 <= j < s.resolved[i].declared_dependency_ids.len() ==> known(
            s,
            in_flight,
            #[trigger] s.resolved[i].declared_dependency_ids[j],
        )
}

/// A resolver that starts on the requested identifiers is on track.
pub proof fn start_is_on_track(source: Map<Seq<char>, ModRecordView>, requested: Seq<Seq<char>>)
    ensures
        on_track(
            source,
            requested,
            ResolverView { resolved: Seq::empty(), pending: requested, failure: None },
            Set::empty(),
        ),
{
    assert forall|k: int| 0 <= k < requested.len() implies reachable(
        source,
        requested,
        #[trigger] requested[k],
    ) by {
        lemma_requested_reachable(source, requested, k);
    }
}

/// Handing out the next identifier keeps a resolver on track, with that
/// identifier in flight. The identifier is reachable and not resolved, and
/// the pending list gets shorter. Where none is handed out, nothing is
/// pending any more.
pub proof fn taking_keeps_on_track(
    source: Map<Seq<char>, ModRecordView>,
    requested: Seq<Seq<char>>,
    s: ResolverView,
    in_flight: Set<Seq<char>>,
)
    requires
        on_track(source, requested, s, in_flight),
    ensures
        match take_next(s).1 {
            Some(mod_id) => on_track(source, requested, take_next(s).0, in_flight.insert(mod_id))
                && reachable(source, requested, mod_id) && !ids_of(s.resolved).contains(mod_id)
                && take_next(s).0.pending.len() < s.pending.len(),
            None => on_track(source, requested, take_next(s).0, in_flight) && take_next(
                s,
            ).0.pending.len() == 0,
        },
{
    let ids = ids_of(s.resolved);
    let t = trim_resolved(s.pending, ids);
    let after = take_next(s).0;
    lemma_trim(s.pending, ids);
    let flying = match take_next(s).1 {
        Some(mod_id) => in_flight.insert(mod_id),
        None => in_flight,
    };
    if t.len() > 0 {
        assert(t.last() == s.pending[t.len() - 1]);
    }
    assert forall|x: Seq<char>| known(s, in_flight, x) implies known(after, flying, x) by {
        if !ids.contains(x) && !in_flight.contains(x) {
            let k = choose|k: int| 0 <= k < s.pending.len() && s.pending[k] == x;
            if k < after.pending.len() {
                assert(after.pending[k] == x);
            } else if k >= t.len() {
                assert(ids.contains(s.pending[k]));
            }
        }
    }
    assert forall|k: int| 0 <= k < after.pending.len() implies reachable(
        source,
        requested,
        #[trigger] after.pending[k],
    ) by {
        assert(after.pending[k] == s.pending[k]);
    }
    assert forall|k: int| 0 <= k < requested.len() implies known(
        after,
        flying,
        #[trigger] requested[k],
    ) by {
        assert(known(s, in_flight, requested[k]));
    }
    assert forall|i: int, j: int|
        0 <= i < after.resolved.len() && 0 <= j
            < after.resolved[i].declared_dependency_ids.len() implies known(
        after,
        flying,
        #[trigger] after.resolved[i].declared_dependency_ids[j],
    ) by {
        assert(known(s, in_flight, s.resolved[i].declared_dependency_ids[j]));
    }
}

/// Taking in the source's record of an identifier in flight keeps a resolver
/// on track, with that identifier no longer in flight.
pub proof fn answer_keeps_on_track(
    source: Map<Seq<char>, ModRecordView>,
    requested: Seq<Seq<char>>,
    s: ResolverView,
    in_flight: Set<Seq<char>>,
    mod_id: Seq<char>,
)
    requires
        on_track(source, requested, s, in_flight),
        in_flight.contains(mod_id),
        source.contains_key(mod_id),
        source[mod_id].mod_id == mod_id,
    ensures
        on_track(
            source,
            requested,
            apply_outcome(s, mod_id, LookupOutcomeView::Found(source[mod_id])),
            in_flight.remove(mod_id),
        ),
{
    let record = source[mod_id];
    let after = apply_outcome(s, mod_id, LookupOutcomeView::Found(record));
    let flying = in_flight.remove(mod_id);
    let ids = ids_of(s.resolved);
    let after_ids = ids_of(after.resolved);
    if ids.contains(mod_id) {
        assert forall|x: Seq<char>| known(s, in_flight, x) implies known(after, flying, x) by {}
    } else {
        assert(after_ids =~= ids.push(mod_id));
        assert(after_ids[ids.len() as int] == mod_id);
        assert forall|x: Seq<char>| known(s, in_flight, x) implies known(after, flying, x) by {
            if ids.contains(x) {
                let i = choose|i: int| 0 <= i < ids.len() && ids[i] == x;
                assert(after_ids[i] == x);
            } else if s.pending.contains(x) {
                let k = choose|k: int| 0 <= k < s.pending.len() && s.pending[k] == x;
                assert(after.pending[k] == x);
            }
        }
        assert forall|i: int|
            0 <= i < after.resolved.len() implies source.contains_key(
            #[trigger] after.resolved[i].mod_id,
        ) && source[after.resolved[i].mod_id] == after.resolved[i] && reachable(
            source,
            requested,
            after.resolved[i].mod_id,
        ) by {
            if i < s.resolved.len() {
                assert(after.resolved[i] == s.resolved[i]);
            }
        }
        assert forall|k: int| 0 <= k < after.pending.len() implies reachable(
            source,
            requested,
            #[trigger] after.pending[k],
        ) by {
            if k < s.pending.len() {
                assert(after.pending[k] == s.pending[k]);
            } else {
                let j = k - s.pending.len();
                assert(after.pending[k] == record.declared_dependency_ids[j]);
                lemma_dependency_reachable(source, requested, mod_id, after.pending[k]);
            }
        }
    }
    assert forall|k: int| 0 <= k < requested.len() implies known(
        after,
        flying,
        #[trigger] requested[k],
    ) by {
        assert(known(s, in_flight, requested[k]));
    }
    assert forall|i: int, j: int|
        0 <= i < after.resolved.len() && 0 <= j
            < after.resolved[i].declared_dependency_ids.len() implies known(
        after,
        flying,
        #[trigger] after.resolved[i].declared_dependency_ids[j],
    ) by {
        if i < s.resolved.len() {
            assert(after.resolved[i] == s.resolved[i]);
            assert(known(s, in_flight, s.resolved[i].declared_dependency_ids[j]));
        } else {
            assert(after.pending[s.pending.len() + j] == record.declared_dependency_ids[j]);
        }
    }
}

/// Where the source has no record of an identifier in flight, the run fails
/// with that identifier, which is reachable; nothing more is resolved, and
/// no later outcome changes the failure.
pub proof fn missing_record_fails(
    source: Map<Seq<char>, ModRecordView>,
    requested: Seq<Seq<char>>,
    s: ResolverView,
    in_flight: Set<Seq<char>>,
    mod_id: Seq<char>,
    later_id: Seq<char>,
    later: LookupOutcomeView,
)
    requires
        on_track(source, requested, s, in_flight),
        in_flight.contains(mod_id),
        !source.contains_key(mod_id),
    ensures
        apply_outcome(s, mod_id, LookupOutcomeView::NotFound).failure == Some(
            ResolveErrorView::ModNotFound(mod_id),
        ),
        apply_outcome(s, mod_id, LookupOutcomeView::NotFound).resolved == s.resolved,
        reachable(source, requested, mod_id),
        !all_found(source, requested),
        apply_outcome(apply_outcome(s, mod_id, LookupOutcomeView::NotFound), later_id, later)
            == apply_outcome(s, mod_id, LookupOutcomeView::NotFound),
        take_next(apply_outcome(s, mod_id, LookupOutcomeView::NotFound)).1.is_none(),
{
}

/// A resolver on track with nothing pending and nothing in flight holds the
/// closure.
pub proof fn settled_is_closure(
    source: Map<Seq<char>, ModRecordView>,
    requested: Seq<Seq<char>>,
    s: ResolverView,
)
    requires
        on_track(source, requested, s, Set::empty()),
        s.pending.len() == 0,
    ensures
        is_closure(source, requested, s.resolved),
        all_found(source, requested),
{
    let records = s.resolved;
    let none = Set::<Seq<char>>::empty();
    assert forall|k: int| 0 <= k < requested.len() implies ids_of(records).contains(
        #[trigger] requested[k],
    ) by {
        assert(known(s, none, requested[k]));
    }
    assert forall|i: int, j: int|
        0 <= i < records.len() && 0 <= j < records[i].declared_dependency_ids.len() implies ids_of(
        records,
    ).contains(#[trigger] records[i].declared_dependency_ids[j]) by {
        assert(known(s, none, records[i].declared_dependency_ids[j]));
    }
    assert forall|x: Seq<char>| #[trigger] reachable(source, requested, x) implies ids_of(
        records,
    ).contains(x) by {
        let path = choose|path: Seq<Seq<char>>| #[trigger]
            is_path(source, requested, path) && path.last() == x;
        lemma_closed_holds_path(source, requested, records, path, path.len() - 1);
    }
    assert forall|x: Seq<char>| ids_of(records).contains(x) implies reachable(
        source,
        requested,
        x,
    ) by {
        let i = choose|i: int| 0 <= i < records.len() && ids_of(records)[i] == x;
        assert(reachable(source, requested, records[i].mod_id));
    }
    assert(is_closure(source, requested, records));
    closure_needs_all_found(source, requested, records);
}

} // verus!
