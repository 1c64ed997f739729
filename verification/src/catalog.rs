//! A metadata source held in memory, and the resolution run against it.

use vstd::prelude::*;
use vstd::set_lib::{lemma_int_range, lemma_len_subset, set_int_range};
use crate::record::{ModRecord, ModRecordView, record_views, ids_of, string_views};
use crate::resolver::{
    DependencyResolver, LookupOutcome, LookupOutcomeView, ResolveError, ResolveErrorView,
};
use crate::closure::{all_found, is_closure, reachable};
use crate::schedule::{
    answer_keeps_on_track, on_track, settled_is_closure, start_is_on_track, taking_keeps_on_track,
};

verus! {

/// One artifact of the catalog: a record and the platform version it is for.
#[derive(Debug)]
pub struct CatalogEntry {
    pub platform_version: String,
    pub record: ModRecord,
}

/// A metadata source held in memory. Where two entries answer the same
/// lookup, the earlier one counts.
#[derive(Debug)]
pub struct Catalog {
    pub entries: Vec<CatalogEntry>,
}

/// The entry is the artifact of `mod_id` for `platform_version`.
pub open spec fn entry_matches(
    entry: CatalogEntry,
    mod_id: Seq<char>,
    platform_version: Seq<char>,
) -> bool {
    entry.platform_version@ == platform_version && entry.record@.mod_id == mod_id
}

/// `i` is the place of the first entry that answers the lookup.
pub open spec fn is_first_match(
    entries: Seq<CatalogEntry>,
    mod_id: Seq<char>,
    platform_version: Seq<char>,
    i: int,
) -> bool {
    &&& 0 <= i < entries.len()
    &&& entry_matches(entries[i], mod_id, platform_version)
    &&& forall|j: int| 0 <= j < i ==> !entry_matches(#[trigger] entries[j], mod_id, platform_version)
}

/// Some entry answers the lookup.
pub open spec fn has_match(
    entries: Seq<CatalogEntry>,
    mod_id: Seq<char>,
    platform_version: Seq<char>,
) -> bool {
    exists|i: int| is_first_match(entries, mod_id, platform_version, i)
}

/// The place of the first entry that answers the lookup, where there is one.
pub open spec fn first_match(
    entries: Seq<CatalogEntry>,
    mod_id: Seq<char>,
    platform_version: Seq<char>,
) -> int {
    choose|i: int| is_first_match(entries, mod_id, platform_version, i)
}

impl Catalog {
    /// The catalog as a map from identifier to record, for one platform version.
    pub open spec fn index(&self, platform_version: Seq<char>) -> Map<Seq<char>, ModRecordView> {
        Map::new(
            |mod_id: Seq<char>| has_match(self.entries@, mod_id, platform_version),
            |mod_id: Seq<char>|
                self.entries@[first_match(self.entries@, mod_id, platform_version)].record@,
        )
    }

    /// A catalog of the given entries.
    pub fn new(entries: Vec<CatalogEntry>) -> (c: Catalog)
        ensures
            c.entries == entries,
    {
        Catalog { entries }
    }

    /// The place of the first entry for `mod_id` and `platform_version`.
    pub fn find(&self, mod_id: &String, platform_version: &String) -> (r: Option<usize>)
        ensures
            match r {
                Some(i) => is_first_match(self.entries@, mod_id@, platform_version@, i as int),
                None => !has_match(self.entries@, mod_id@, platform_version@),
            },
    {
        let mut i: usize = 0;
        while i < self.entries.len()
            invariant
                i <= self.entries.len(),
                forall|j: int|
                    0 <= j < i ==> !entry_matches(
                        #[trigger] self.entries@[j],
                        mod_id@,
                        platform_version@,
                    ),
            decreases self.entries.len() - i,
        {
            if self.entries[i].platform_version == *platform_version && self.entries[i].record.mod_id
                == *mod_id {
                return Some(i);
            }
            i += 1;
        }
        None
    }

    /// Looks an identifier up for a platform version. An in-memory catalog
    /// never fails in transport.
    pub fn lookup(&self, mod_id: &String, platform_version: &String) -> (r: LookupOutcome)
        ensures
            r@ == if self.index(platform_version@).contains_key(mod_id@) {
                LookupOutcomeView::Found(self.index(platform_version@)[mod_id@])
            } else {
                LookupOutcomeView::NotFound
            },
    {
        match self.find(mod_id, platform_version) {
            Some(i) => {
                proof {
                    lemma_first_match_is(self.entries@, mod_id@, platform_version@, i as int);
                }
                LookupOutcome::Found(self.entries[i].record.duplicate())
            },
            None => LookupOutcome::NotFound,
        }
    }
}

/// There is one first match at most.
pub proof fn lemma_first_match_is(
    entries: Seq<CatalogEntry>,
    mod_id: Seq<char>,
    platform_version: Seq<char>,
    i: int,
)
    requires
        is_first_match(entries, mod_id, platform_version, i),
    ensures
        has_match(entries, mod_id, platform_version),
        first_match(entries, mod_id, platform_version) == i,
{
    let c = first_match(entries, mod_id, platform_version);
    assert(is_first_match(entries, mod_id, platform_version, c));
    if c < i {
        assert(!entry_matches(entries[c], mod_id, platform_version));
    }
    if i < c {
        assert(!entry_matches(entries[i], mod_id, platform_version));
    }
}

/// The catalog's record of an identifier is a record of that identifier.
pub proof fn lemma_index_keeps_ids(catalog: Catalog, platform_version: Seq<char>, mod_id: Seq<char>)
    requires
        catalog.index(platform_version).contains_key(mod_id),
    ensures
        catalog.index(platform_version)[mod_id].mod_id == mod_id,
        is_first_match(
            catalog.entries@,
            mod_id,
            platform_version,
            first_match(catalog.entries@, mod_id, platform_version),
        ),
{
}

/// Resolves the requested identifiers against the catalog, for one platform
/// version.
///
/// The result is the resolution closure, exactly where the catalog has a
/// record of every reachable identifier. Else it is `ModNotFound` with a
/// reachable identifier that the catalog has no record of, and no record is
/// handed out.
pub fn resolve(catalog: &Catalog, requested: Vec<String>, platform_version: &String) -> (r: Result<
    Vec<ModRecord>,
    ResolveError,
>)
    ensures
        r.is_ok() <==> all_found(catalog.index(platform_version@), string_views(requested@)),
        match r {
            Ok(records) => is_closure(
                catalog.index(platform_version@),
                string_views(requested@),
                record_views(records@),
            ),
            Err(e) => exists|mod_id: Seq<char>|
                e@ == ResolveErrorView::ModNotFound(mod_id) && #[trigger] reachable(
                    catalog.index(platform_version@),
                    string_views(requested@),
                    mod_id,
                ) && !catalog.index(platform_version@).contains_key(mod_id),
        },
{
    let ghost source = catalog.index(platform_version@);
    let ghost roots = string_views(requested@);
    let ghost entries = catalog.entries@;
    let ghost version = platform_version@;
    let mut resolver = DependencyResolver::new(requested);
    let ghost mut visited: Set<int> = Set::empty();
    let ghost idle = Set::<Seq<char>>::empty();
    proof {
        start_is_on_track(source, roots);
    }
    loop
        invariant_except_break
            on_track(source, roots, resolver@, idle),
            visited.finite(),
            visited.len() == resolver@.resolved.len(),
            visited.subset_of(set_int_range(0, entries.len() as int)),
            forall|i: int|
                visited.contains(i) ==> ids_of(resolver@.resolved).contains(
                    (#[trigger] entries[i]).record@.mod_id,
                ),
        invariant
            source == catalog.index(platform_version@),
            entries == catalog.entries@,
            version == platform_version@,
            idle == Set::<Seq<char>>::empty(),
            resolver.wf(),
        ensures
            resolver.complete(),
            resolver@.failure.is_none() ==> is_closure(source, roots, resolver@.resolved)
                && all_found(source, roots),
            resolver@.failure.is_some() ==> exists|mod_id: Seq<char>|
                resolver@.failure == Some(ResolveErrorView::ModNotFound(mod_id))
                    && #[trigger] reachable(source, roots, mod_id) && !source.contains_key(mod_id),
        decreases entries.len() - resolver@.resolved.len(), resolver@.pending.len(),
    {
        let ghost before = resolver@;
        proof {
            taking_keeps_on_track(source, roots, before, idle);
            lemma_int_range(0, entries.len() as int);
            lemma_len_subset(visited, set_int_range(0, entries.len() as int));
        }
        match resolver.next_lookup() {
            None => {
                proof {
                    settled_is_closure(source, roots, resolver@);
                }
                break ;
            },
            Some(id) => {
                let ghost id_view = id@;
                let ghost mid = resolver@;
                let ghost flying = idle.insert(id_view);
                let outcome = catalog.lookup(&id, platform_version);
                resolver.record_outcome(id, outcome);
                if resolver.has_failed() {
                    assert(resolver@.failure == Some(ResolveErrorView::ModNotFound(id_view)));
                    assert(reachable(source, roots, id_view) && !source.contains_key(id_view));
                    break ;
                }
                proof {
                    lemma_index_keeps_ids(*catalog, version, id_view);
                    answer_keeps_on_track(source, roots, mid, flying, id_view);
                    assert(flying.remove(id_view) =~= idle);
                    let at = first_match(entries, id_view, version);
                    assert(!visited.contains(at));
                    visited = visited.insert(at);
                    assert(ids_of(resolver@.resolved) =~= ids_of(before.resolved).push(id_view));
                    assert forall|i: int| visited.contains(i) implies ids_of(
                        resolver@.resolved,
                    ).contains((#[trigger] entries[i]).record@.mod_id) by {
                        if i != at {
                            let x = entries[i].record@.mod_id;
                            let k = choose|k: int|
                                0 <= k < before.resolved.len() && ids_of(before.resolved)[k] == x;
                            assert(ids_of(resolver@.resolved)[k] == x);
                        } else {
                            assert(ids_of(resolver@.resolved)[before.resolved.len() as int]
                                == id_view);
                        }
                    }
                    lemma_len_subset(visited, set_int_range(0, entries.len() as int));
                }
            },
        }
    }
    resolver.into_result()
}

} // verus!
