use mod_install::catalog::{resolve, Catalog, CatalogEntry};
use mod_install::record::ModRecord;
use mod_install::resolver::{DependencyResolver, LookupOutcome, ResolutionState, ResolveError};

fn s(text: &str) -> String {
    text.to_string()
}

fn record(id: &str, deps: &[&str]) -> ModRecord {
    ModRecord::new(
        s(id),
        format!("{} (display)", id),
        format!("{}-1.0", id),
        format!("https://mods.example/{}", id),
        deps.iter().map(|d| s(d)).collect(),
    )
}

fn entry(version: &str, id: &str, deps: &[&str]) -> CatalogEntry {
    CatalogEntry { platform_version: s(version), record: record(id, deps) }
}

fn sorted_ids(records: &Vec<ModRecord>) -> Vec<String> {
    let mut ids: Vec<String> = records.iter().map(|r| r.mod_id.clone()).collect();
    ids.sort();
    ids
}

#[test]
fn resolves_a_mod_and_its_dependency() {
    let catalog = Catalog::new(vec![
        entry("1.12.2", "modA", &["modB"]),
        entry("1.12.2", "modB", &[]),
    ]);
    let records = resolve(&catalog, vec![s("modA")], &s("1.12.2")).unwrap();
    assert_eq!(sorted_ids(&records), vec![s("modA"), s("modB")]);
    let b = records.iter().find(|r| r.mod_id == "modB").unwrap();
    assert_eq!(b.file_name, "modB-1.0");
    assert_eq!(b.download_url, "https://mods.example/modB");
    assert!(b.declared_dependency_ids.is_empty());
}

#[test]
fn resolves_a_cycle_once_each() {
    let catalog = Catalog::new(vec![entry("1.12.2", "A", &["B"]), entry("1.12.2", "B", &["A"])]);
    let records = resolve(&catalog, vec![s("A")], &s("1.12.2")).unwrap();
    assert_eq!(records.len(), 2);
    assert_eq!(sorted_ids(&records), vec![s("A"), s("B")]);
}

#[test]
fn resolves_a_self_dependency() {
    let catalog = Catalog::new(vec![entry("1.12.2", "A", &["A"])]);
    let records = resolve(&catalog, vec![s("A")], &s("1.12.2")).unwrap();
    assert_eq!(sorted_ids(&records), vec![s("A")]);
}

#[test]
fn resolves_shared_dependencies_once() {
    let catalog = Catalog::new(vec![
        entry("1.12.2", "top", &["left", "right"]),
        entry("1.12.2", "left", &["base"]),
        entry("1.12.2", "right", &["base"]),
        entry("1.12.2", "base", &[]),
        entry("1.12.2", "unrelated", &[]),
    ]);
    let records = resolve(&catalog, vec![s("top"), s("left"), s("top")], &s("1.12.2")).unwrap();
    assert_eq!(sorted_ids(&records), vec![s("base"), s("left"), s("right"), s("top")]);
}

#[test]
fn resolves_the_same_set_in_any_order_of_request() {
    let entries = || {
        vec![
            entry("1.12.2", "a", &["c", "b"]),
            entry("1.12.2", "b", &["d"]),
            entry("1.12.2", "c", &["d"]),
            entry("1.12.2", "d", &[]),
        ]
    };
    let one = resolve(&Catalog::new(entries()), vec![s("a"), s("b")], &s("1.12.2")).unwrap();
    let mut reversed = entries();
    reversed.reverse();
    let other = resolve(&Catalog::new(reversed), vec![s("b"), s("a")], &s("1.12.2")).unwrap();
    assert_eq!(sorted_ids(&one), sorted_ids(&other));
    assert_eq!(sorted_ids(&one), vec![s("a"), s("b"), s("c"), s("d")]);
}

#[test]
fn resolves_nothing_from_nothing() {
    let catalog = Catalog::new(vec![entry("1.12.2", "A", &[])]);
    let records = resolve(&catalog, Vec::new(), &s("1.12.2")).unwrap();
    assert!(records.is_empty());
}

#[test]
fn a_missing_dependency_fails_the_whole_resolution() {
    let catalog = Catalog::new(vec![
        entry("1.12.2", "modA", &["modB"]),
        entry("1.12.2", "modB", &["modC"]),
    ]);
    match resolve(&catalog, vec![s("modA")], &s("1.12.2")) {
        Err(ResolveError::ModNotFound(id)) => assert_eq!(id, "modC"),
        other => panic!("expected ModNotFound, got {:?}", other),
    }
}

#[test]
fn a_record_for_another_platform_version_does_not_count() {
    let catalog = Catalog::new(vec![
        entry("1.12.2", "modA", &["modB"]),
        entry("1.10.2", "modB", &[]),
    ]);
    match resolve(&catalog, vec![s("modA")], &s("1.12.2")) {
        Err(ResolveError::ModNotFound(id)) => assert_eq!(id, "modB"),
        other => panic!("expected ModNotFound, got {:?}", other),
    }
    let older = resolve(&catalog, vec![s("modB")], &s("1.10.2")).unwrap();
    assert_eq!(sorted_ids(&older), vec![s("modB")]);
}

#[test]
fn the_first_entry_of_two_answers_a_lookup() {
    let catalog = Catalog::new(vec![
        entry("1.12.2", "modA", &[]),
        entry("1.12.2", "modA", &["modB"]),
    ]);
    assert_eq!(catalog.find(&s("modA"), &s("1.12.2")), Some(0));
    assert_eq!(catalog.find(&s("modB"), &s("1.12.2")), None);
    let records = resolve(&catalog, vec![s("modA")], &s("1.12.2")).unwrap();
    assert_eq!(sorted_ids(&records), vec![s("modA")]);
}

#[test]
fn lookup_hands_out_a_copy_of_the_record() {
    let catalog = Catalog::new(vec![entry("1.12.2", "modA", &["x", "y"])]);
    match catalog.lookup(&s("modA"), &s("1.12.2")) {
        LookupOutcome::Found(r) => {
            assert_eq!(r.mod_id, "modA");
            assert_eq!(r.display_name, "modA (display)");
            assert_eq!(r.declared_dependency_ids, vec![s("x"), s("y")]);
        }
        other => panic!("expected a record, got {:?}", other),
    }
    assert!(matches!(catalog.lookup(&s("modA"), &s("1.7.10")), LookupOutcome::NotFound));
}

#[test]
fn state_inserts_only_what_is_absent() {
    let mut state = ResolutionState::new();
    assert_eq!(state.len(), 0);
    assert!(!state.contains(&s("a")));
    assert!(state.insert_if_absent(record("a", &["b"])));
    assert!(state.contains(&s("a")));
    assert!(!state.insert_if_absent(record("a", &[])));
    assert!(state.insert_if_absent(record("b", &[])));
    assert_eq!(state.len(), 2);
    let records = state.into_records();
    assert_eq!(records[0].mod_id, "a");
    assert_eq!(records[0].declared_dependency_ids, vec![s("b")]);
    assert_eq!(records[1].mod_id, "b");
}

#[test]
fn resolver_visits_the_last_pending_identifier_first() {
    let mut resolver = DependencyResolver::new(vec![s("a"), s("b")]);
    assert!(!resolver.is_complete());
    assert_eq!(resolver.next_lookup(), Some(s("b")));
    resolver.record_outcome(s("b"), LookupOutcome::Found(record("b", &["c", "a"])));
    assert_eq!(resolver.resolved_len(), 1);
    assert_eq!(resolver.next_lookup(), Some(s("a")));
    resolver.record_outcome(s("a"), LookupOutcome::Found(record("a", &["b"])));
    // pending is now a, b, c, a, b: the resolved ones at the end are dropped
    assert_eq!(resolver.next_lookup(), Some(s("c")));
    resolver.record_outcome(s("c"), LookupOutcome::Found(record("c", &[])));
    assert_eq!(resolver.next_lookup(), None);
    assert!(resolver.is_complete());
    assert!(!resolver.has_failed());
    let records = resolver.into_result().unwrap();
    let ids: Vec<&str> = records.iter().map(|r| r.mod_id.as_str()).collect();
    assert_eq!(ids, vec!["b", "a", "c"]);
}

#[test]
fn resolver_skips_a_record_that_another_lookup_brought_first() {
    let mut resolver = DependencyResolver::new(vec![s("a"), s("a")]);
    assert_eq!(resolver.next_lookup(), Some(s("a")));
    assert_eq!(resolver.next_lookup(), Some(s("a")));
    resolver.record_outcome(s("a"), LookupOutcome::Found(record("a", &["b"])));
    resolver.record_outcome(s("a"), LookupOutcome::Found(record("a", &["b"])));
    assert_eq!(resolver.resolved_len(), 1);
    assert_eq!(resolver.next_lookup(), Some(s("b")));
    assert_eq!(resolver.next_lookup(), None);
}

#[test]
fn resolver_fails_fast_on_a_transport_failure() {
    let mut resolver = DependencyResolver::new(vec![s("a"), s("b")]);
    assert_eq!(resolver.next_lookup(), Some(s("b")));
    resolver.record_outcome(s("b"), LookupOutcome::TransportFailure);
    assert!(resolver.has_failed());
    assert!(resolver.is_complete());
    assert_eq!(resolver.next_lookup(), None);
    resolver.record_outcome(s("a"), LookupOutcome::Found(record("a", &[])));
    assert_eq!(resolver.resolved_len(), 0);
    assert!(matches!(resolver.into_result(), Err(ResolveError::Transport)));
}

#[test]
fn resolver_keeps_the_first_failure() {
    let mut resolver = DependencyResolver::new(vec![s("a"), s("b")]);
    resolver.record_outcome(s("b"), LookupOutcome::NotFound);
    resolver.record_outcome(s("a"), LookupOutcome::TransportFailure);
    match resolver.into_result() {
        Err(ResolveError::ModNotFound(id)) => assert_eq!(id, "b"),
        other => panic!("expected ModNotFound, got {:?}", other),
    }
}

#[test]
fn resolver_takes_a_record_under_another_identifier_as_malformed() {
    let mut resolver = DependencyResolver::new(vec![s("a")]);
    assert_eq!(resolver.next_lookup(), Some(s("a")));
    resolver.record_outcome(s("a"), LookupOutcome::Found(record("z", &[])));
    assert!(matches!(resolver.into_result(), Err(ResolveError::Transport)));
}

#[test]
fn duplicate_keeps_every_field() {
    let original = record("a", &["b", "c"]);
    let copy = original.duplicate();
    assert_eq!(copy.mod_id, original.mod_id);
    assert_eq!(copy.display_name, original.display_name);
    assert_eq!(copy.file_name, original.file_name);
    assert_eq!(copy.download_url, original.download_url);
    assert_eq!(copy.declared_dependency_ids, original.declared_dependency_ids);
}

#[test]
fn lookups_made_a_round_at_a_time_give_the_same_set() {
    let entries = || {
        vec![
            entry("1.12.2", "a", &["b", "c"]),
            entry("1.12.2", "b", &["d", "a"]),
            entry("1.12.2", "c", &["d"]),
            entry("1.12.2", "d", &[]),
        ]
    };
    let catalog = Catalog::new(entries());
    let version = s("1.12.2");
    let mut resolver = DependencyResolver::new(vec![s("a"), s("c")]);
    loop {
        let mut round: Vec<String> = Vec::new();
        while let Some(id) = resolver.next_lookup() {
            round.push(id);
        }
        if round.is_empty() {
            break;
        }
        round.reverse();
        for id in round {
            let outcome = catalog.lookup(&id, &version);
            resolver.record_outcome(id, outcome);
        }
    }
    assert!(resolver.is_complete());
    let by_rounds = resolver.into_result().unwrap();
    let in_turn = resolve(&Catalog::new(entries()), vec![s("a"), s("c")], &version).unwrap();
    assert_eq!(by_rounds.len(), 4);
    assert_eq!(sorted_ids(&by_rounds), sorted_ids(&in_turn));
}
