//! What the resolver owes: the set of identifiers reachable from the
//! requested ones along declared dependencies.

use vstd::prelude::*;
use crate::record::{ModRecordView, ids_of};

verus! {

/// `path` starts at a requested identifier, and each further identifier is a
/// declared dependency of the one before it, which the source has a record of.
pub open spec fn is_path(
    source: Map<Seq<char>, ModRecordView>,
    requested: Seq<Seq<char>>,
    path: Seq<Seq<char>>,
) -> bool {
    &&& path.len() > 0
    &&& requested.contains(path[0])
    &&& forall|i: int|
        0 <= i < path.len() - 1 ==> source.contains_key(#[trigger] path[i])
            && source[path[i]].declared_dependency_ids.contains(path[i + 1])
}

/// `mod_id` is requested, or a dependency of a dependency of a requested one.
pub open spec fn reachable(
    source: Map<Seq<char>, ModRecordView>,
    requested: Seq<Seq<char>>,
    mod_id: Seq<char>,
) -> bool {
    exists|path: Seq<Seq<char>>| #[trigger] is_path(source, requested, path) && path.last() == mod_id
}

/// The source has a record of every reachable identifier.
pub open spec fn all_found(source: Map<Seq<char>, ModRecordView>, requested: Seq<Seq<char>>) -> bool {
    forall|mod_id: Seq<char>| #[trigger]
        reachable(source, requested, mod_id) ==> source.contains_key(mod_id)
}

/// `records` is the resolution closure: the source's record of each
/// reachable identifier, and of no other, each once.
pub open spec fn is_closure(
    source: Map<Seq<char>, ModRecordView>,
    requested: Seq<Seq<char>>,
    records: Seq<ModRecordView>,
) -> bool {
    &&& ids_of(records).no_duplicates()
    &&& forall|i: int|
        0 <= i < records.len() ==> source.contains_key(#[trigger] records[i].mod_id)
            && source[records[i].mod_id] == records[i]
    &&& forall|mod_id: Seq<char>| #[trigger]
        reachable(source, requested, mod_id) <==> ids_of(records).contains(mod_id)
}

/// Every requested identifier is reachable.
pub proof fn lemma_requested_reachable(
    source: Map<Seq<char>, ModRecordView>,
    requested: Seq<Seq<char>>,
    k: int,
)
    requires
        0 <= k < requested.len(),
    ensures
        reachable(source, requested, requested[k]),
{
    let path = seq![requested[k]];
    assert(is_path(source, requested, path));
    assert(path.last() == requested[k]);
}

/// A declared dependency of a reachable identifier with a record is reachable.
pub proof fn lemma_dependency_reachable(
    source: Map<Seq<char>, ModRecordView>,
    requested: Seq<Seq<char>>,
    mod_id: Seq<char>,
    dependency: Seq<char>,
)
    requires
        reachable(source, requested, mod_id),
        source.contains_key(mod_id),
        source[mod_id].declared_dependency_ids.contains(dependency),
    ensures
        reachable(source, requested, dependency),
{
    let path = choose|path: Seq<Seq<char>>| #[trigger]
        is_path(source, requested, path) && path.last() == mod_id;
    let longer = path.push(dependency);
    assert forall|i: int| 0 <= i < longer.len() - 1 implies source.contains_key(
        #[trigger] longer[i],
    ) && source[longer[i]].declared_dependency_ids.contains(longer[i + 1]) by {
        if i < path.len() - 1 {
            assert(longer[i] == path[i]);
            assert(longer[i + 1] == path[i + 1]);
        }
    }
    assert(longer[0] == path[0]);
    assert(is_path(source, requested, longer));
    assert(longer.last() == dependency);
}

/// A set of records that holds the requested identifiers and, with each
/// record, its declared dependencies, holds every identifier of a path.
pub proof fn lemma_closed_holds_path(
    source: Map<Seq<char>, ModRecordView>,
    requested: Seq<Seq<char>>,
    records: Seq<ModRecordView>,
    path: Seq<Seq<char>>,
    k: int,
)
    requires
        is_path(source, requested, path),
        0 <= k < path.len(),
        forall|i: int|
            0 <= i < requested.len() ==> ids_of(records).contains(#[trigger] requested[i]),
        forall|i: int|
            0 <= i < records.len() ==> source.contains_key(#[trigger] records[i].mod_id)
                && source[records[i].mod_id] == records[i],
        forall|i: int, j: int|
            0 <= i < records.len() && 0 <= j < records[i].declared_dependency_ids.len()
                ==> ids_of(records).contains(#[trigger] records[i].declared_dependency_ids[j]),
    ensures
        ids_of(records).contains(path[k]),
    decreases k,
{
    if k == 0 {
        let i = choose|i: int| 0 <= i < requested.len() && requested[i] == path[0];
        assert(ids_of(records).contains(requested[i]));
    } else {
        lemma_closed_holds_path(source, requested, records, path, k - 1);
        let prev = path[k - 1];
        let i = choose|i: int| 0 <= i < records.len() && ids_of(records)[i] == prev;
        assert(records[i].mod_id == prev);
        assert(source.contains_key(path[k - 1]));
        assert(source[prev] == records[i]);
        let deps = records[i].declared_dependency_ids;
        assert(deps.contains(path[k - 1 + 1]));
        let j = choose|j: int| 0 <= j < deps.len() && deps[j] == path[k];
        assert(ids_of(records).contains(records[i].declared_dependency_ids[j]));
    }
}

/// Two closures of the same request hold the same identifiers and the same
/// records, and as many of them: in which order the lookups were made does
/// not matter.
pub proof fn closure_is_unique(
    source: Map<Seq<char>, ModRecordView>,
    requested: Seq<Seq<char>>,
    first: Seq<ModRecordView>,
    second: Seq<ModRecordView>,
)
    requires
        is_closure(source, requested, first),
        is_closure(source, requested, second),
    ensures
        ids_of(first).to_set() == ids_of(second).to_set(),
        first.to_set() == second.to_set(),
        first.len() == second.len(),
{
    assert forall|x: Seq<char>| ids_of(first).contains(x) <==> ids_of(second).contains(x) by {
        assert(reachable(source, requested, x) <==> ids_of(first).contains(x));
        assert(reachable(source, requested, x) <==> ids_of(second).contains(x));
    }
    assert(ids_of(first).to_set() =~= ids_of(second).to_set());
    lemma_records_among(source, first, second);
    lemma_records_among(source, second, first);
    assert(first.to_set() =~= second.to_set());
    ids_of(first).unique_seq_to_set();
    ids_of(second).unique_seq_to_set();
}

/// Records that are the source's own are found among others that are, where
/// their identifiers are.
proof fn lemma_records_among(
    source: Map<Seq<char>, ModRecordView>,
    a: Seq<ModRecordView>,
    b: Seq<ModRecordView>,
)
    requires
        forall|i: int| 0 <= i < a.len() ==> source[#[trigger] a[i].mod_id] == a[i],
        forall|i: int| 0 <= i < b.len() ==> source[#[trigger] b[i].mod_id] == b[i],
        forall|x: Seq<char>| ids_of(a).contains(x) ==> ids_of(b).contains(x),
    ensures
        forall|r: ModRecordView| a.contains(r) ==> b.contains(r),
{
    assert forall|r: ModRecordView| a.contains(r) implies b.contains(r) by {
        let i = choose|i: int| 0 <= i < a.len() && a[i] == r;
        assert(ids_of(a)[i] == r.mod_id);
        assert(ids_of(b).contains(r.mod_id));
        let j = choose|j: int| 0 <= j < b.len() && ids_of(b)[j] == r.mod_id;
        assert(b[j].mod_id == r.mod_id);
        assert(source[b[j].mod_id] == b[j]);
        assert(source[a[i].mod_id] == a[i]);
        assert(b[j] == r);
    }
}

/// A closure exists only where every reachable identifier has a record, and
/// an identifier that is reachable without a record rules one out.
pub proof fn closure_needs_all_found(
    source: Map<Seq<char>, ModRecordView>,
    requested: Seq<Seq<char>>,
    records: Seq<ModRecordView>,
)
    requires
        is_closure(source, requested, records),
    ensures
        all_found(source, requested),
{
    assert forall|x: Seq<char>| #[trigger] reachable(source, requested, x) implies source.contains_key(
        x,
    ) by {
        assert(ids_of(records).contains(x));
        let i = choose|i: int| 0 <= i < records.len() && ids_of(records)[i] == x;
        assert(source.contains_key(records[i].mod_id));
    }
}

} // verus!
