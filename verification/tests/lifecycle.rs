use bottles_server::bottle::{kind_from_str, derive_path, BottleKind, BottleRecord, LifecycleError};
use bottles_server::coordinator::{Coordinator, LaunchOutcome};
use bottles_server::orchestrator::Orchestrator;
use bottles_server::registry::Registry;
use bottles_server::store::DurableStore;

const BASE: &str = "/var/lib/bottles";

fn fresh() -> Coordinator {
    Coordinator::new(BASE.to_string(), Vec::new())
}

fn record(name: &str, kind: BottleKind) -> BottleRecord {
    BottleRecord {
        name: name.to_string(),
        path: format!("{}/{}", BASE, name),
        kind,
    }
}

#[test]
fn kind_mapping_recognizes_the_closed_set() {
    assert_eq!(kind_from_str("Gaming"), BottleKind::Gaming);
    assert_eq!(kind_from_str("Software"), BottleKind::Software);
    assert_eq!(kind_from_str("Custom"), BottleKind::Custom);
}

#[test]
fn kind_mapping_is_lenient() {
    assert_eq!(kind_from_str("UnknownType"), BottleKind::Custom);
    assert_eq!(kind_from_str(""), BottleKind::Custom);
    assert_eq!(kind_from_str("gaming"), BottleKind::Custom);
}

#[test]
fn path_is_derived_from_base_and_name() {
    assert_eq!(derive_path(BASE, "Foo"), "/var/lib/bottles/Foo");
    assert_eq!(derive_path("", "x"), "/x");
}

#[test]
fn create_bar_with_unknown_kind_falls_back_to_custom() {
    let mut c = fresh();
    let info = c.create_bottle("Bar".to_string(), "UnknownType").unwrap();
    assert_eq!(info.name, "Bar");
    assert_eq!(info.kind, BottleKind::Custom);
    assert!(!info.active);
}

#[test]
fn foo_full_lifecycle() {
    let mut c = fresh();

    let info = c.create_bottle("Foo".to_string(), "Gaming").unwrap();
    assert_eq!(info.name, "Foo");
    assert_eq!(info.kind, BottleKind::Gaming);
    assert_eq!(info.path, "/var/lib/bottles/Foo");
    assert!(!info.active);

    assert!(c.start_bottle("Foo", LaunchOutcome::Ready).is_ok());
    assert!(c.get_bottle("Foo").unwrap().active);

    assert_eq!(
        c.start_bottle("Foo", LaunchOutcome::Ready),
        Err(LifecycleError::AlreadyRunning)
    );

    assert!(c.stop_bottle("Foo").is_ok());
    assert!(!c.get_bottle("Foo").unwrap().active);

    assert!(c.delete_bottle("Foo").is_ok());
    assert_eq!(c.get_bottle("Foo").unwrap_err(), LifecycleError::NotFound);
}

#[test]
fn creating_twice_fails_and_keeps_the_first_record() {
    let mut c = fresh();
    let first = c.create_bottle("Foo".to_string(), "Gaming").unwrap();
    let second = c.create_bottle("Foo".to_string(), "Software");
    assert_eq!(second.unwrap_err(), LifecycleError::AlreadyExists);

    let kept = c.get_bottle("Foo").unwrap();
    assert_eq!(kept.name, first.name);
    assert_eq!(kept.path, first.path);
    assert_eq!(kept.kind, BottleKind::Gaming);
    assert_eq!(c.list_bottles().len(), 1);
}

#[test]
fn deleting_a_nonexistent_name_changes_nothing() {
    let mut c = fresh();
    c.create_bottle("Foo".to_string(), "Gaming").unwrap();
    assert_eq!(c.delete_bottle("Bar").unwrap_err(), LifecycleError::NotFound);

    let listed = c.list_bottles();
    assert_eq!(listed.len(), 1);
    assert_eq!(listed[0].name, "Foo");
}

#[test]
fn disjoint_creates_and_deletes_survive_in_list() {
    let mut c = fresh();
    c.create_bottle("a".to_string(), "Gaming").unwrap();
    c.create_bottle("b".to_string(), "Software").unwrap();
    assert_eq!(c.delete_bottle("gone").unwrap_err(), LifecycleError::NotFound);
    c.create_bottle("d".to_string(), "Custom").unwrap();

    let names: Vec<String> = c.list_bottles().into_iter().map(|b| b.name).collect();
    assert_eq!(names, vec!["a".to_string(), "b".to_string(), "d".to_string()]);
}

#[test]
fn racing_starts_yield_exactly_one_success() {
    let mut c = fresh();
    c.create_bottle("Foo".to_string(), "Gaming").unwrap();
    let first = c.start_bottle("Foo", LaunchOutcome::Ready);
    let second = c.start_bottle("Foo", LaunchOutcome::Ready);
    assert!(first.is_ok());
    assert_eq!(second.unwrap_err(), LifecycleError::AlreadyRunning);
}

#[test]
fn stop_before_start_fails_and_a_cycle_ends_inactive() {
    let mut c = fresh();
    c.create_bottle("Foo".to_string(), "Gaming").unwrap();
    assert_eq!(c.stop_bottle("Foo").unwrap_err(), LifecycleError::NotRunning);

    assert!(c.start_bottle("Foo", LaunchOutcome::Ready).is_ok());
    assert!(c.stop_bottle("Foo").is_ok());
    assert!(!c.get_bottle("Foo").unwrap().active);
}

#[test]
fn lifecycle_errors_name_the_missing_record() {
    let mut c = fresh();
    assert_eq!(
        c.start_bottle("ghost", LaunchOutcome::Ready).unwrap_err(),
        LifecycleError::NotFound
    );
    assert_eq!(c.stop_bottle("ghost").unwrap_err(), LifecycleError::NotFound);
    assert_eq!(
        c.restart_bottle("ghost", LaunchOutcome::Ready).unwrap_err(),
        LifecycleError::NotFound
    );
    assert_eq!(c.get_bottle("ghost").unwrap_err(), LifecycleError::NotFound);
}

#[test]
fn launch_failure_never_marks_running() {
    let mut c = fresh();
    c.create_bottle("Foo".to_string(), "Gaming").unwrap();
    for outcome in [
        LaunchOutcome::Unresolvable,
        LaunchOutcome::SpawnFailed,
        LaunchOutcome::TimedOut,
    ] {
        assert_eq!(
            c.start_bottle("Foo", outcome).unwrap_err(),
            LifecycleError::CollaboratorFailure
        );
        assert!(!c.get_bottle("Foo").unwrap().active);
    }
}

#[test]
fn deleting_a_running_bottle_is_refused() {
    let mut c = fresh();
    c.create_bottle("Foo".to_string(), "Gaming").unwrap();
    c.start_bottle("Foo", LaunchOutcome::Ready).unwrap();
    assert_eq!(c.delete_bottle("Foo").unwrap_err(), LifecycleError::AlreadyRunning);
    assert!(c.get_bottle("Foo").unwrap().active);

    c.stop_bottle("Foo").unwrap();
    assert!(c.delete_bottle("Foo").is_ok());
    assert_eq!(c.get_bottle("Foo").unwrap_err(), LifecycleError::NotFound);
}

#[test]
fn restart_requires_a_running_agent() {
    let mut c = fresh();
    c.create_bottle("Foo".to_string(), "Gaming").unwrap();
    assert_eq!(
        c.restart_bottle("Foo", LaunchOutcome::Ready).unwrap_err(),
        LifecycleError::NotRunning
    );

    c.start_bottle("Foo", LaunchOutcome::Ready).unwrap();
    assert!(c.restart_bottle("Foo", LaunchOutcome::Ready).is_ok());
    assert!(c.get_bottle("Foo").unwrap().active);
}

#[test]
fn restart_whose_relaunch_fails_leaves_the_bottle_stopped() {
    let mut c = fresh();
    c.create_bottle("Foo".to_string(), "Gaming").unwrap();
    c.start_bottle("Foo", LaunchOutcome::Ready).unwrap();
    assert_eq!(
        c.restart_bottle("Foo", LaunchOutcome::SpawnFailed).unwrap_err(),
        LifecycleError::CollaboratorFailure
    );
    assert!(!c.get_bottle("Foo").unwrap().active);
}

#[test]
fn store_round_trip_of_three_records() {
    let records = vec![
        record("a", BottleKind::Gaming),
        record("b", BottleKind::Software),
        record("c", BottleKind::Custom),
    ];
    let mut store = DurableStore::new(&Vec::new());
    store.save(&records);
    let loaded = store.load();
    assert_eq!(loaded.len(), records.len());
    for (got, want) in loaded.iter().zip(records.iter()) {
        assert_eq!(got.name, want.name);
        assert_eq!(got.path, want.path);
        assert_eq!(got.kind, want.kind);
    }
}

#[test]
fn store_round_trip_of_the_empty_collection() {
    let mut store = DurableStore::new(&vec![record("old", BottleKind::Gaming)]);
    store.save(&Vec::new());
    assert!(store.load().is_empty());
}

#[test]
fn registry_rejects_a_corrupt_load_as_empty() {
    let dup = vec![
        record("a", BottleKind::Gaming),
        record("a", BottleKind::Software),
    ];
    let registry = Registry::from_records(dup);
    assert!(registry.list().is_empty());
}

#[test]
fn registry_keeps_a_clean_load() {
    let initial = vec![
        record("a", BottleKind::Gaming),
        record("b", BottleKind::Software),
    ];
    let registry = Registry::from_records(initial);
    let listed = registry.list();
    assert_eq!(listed.len(), 2);
    assert_eq!(listed[0].name, "a");
    assert_eq!(listed[1].name, "b");
}

#[test]
fn coordinator_reloads_what_it_saved() {
    let mut c = fresh();
    c.create_bottle("a".to_string(), "Gaming").unwrap();
    c.create_bottle("b".to_string(), "Software").unwrap();

    let snapshot: Vec<BottleRecord> = c
        .list_bottles()
        .into_iter()
        .map(|b| BottleRecord { name: b.name, path: b.path, kind: b.kind })
        .collect();
    let reloaded = Coordinator::new(BASE.to_string(), snapshot);
    let listed = reloaded.list_bottles();
    assert_eq!(listed.len(), 2);
    assert_eq!(listed[0].name, "a");
    assert_eq!(listed[0].kind, BottleKind::Gaming);
    assert_eq!(listed[1].name, "b");
    assert_eq!(listed[1].kind, BottleKind::Software);
    assert!(!listed[0].active && !listed[1].active);
}

#[test]
fn orchestrator_test_and_set_semantics() {
    let mut o = Orchestrator::new();
    assert!(!o.is_running("x"));
    assert!(o.start_bottle("x".to_string()).is_ok());
    assert!(o.is_running("x"));
    assert_eq!(
        o.start_bottle("x".to_string()).unwrap_err(),
        LifecycleError::AlreadyRunning
    );
    assert!(o.stop_bottle("x").is_ok());
    assert!(!o.is_running("x"));
    assert_eq!(o.stop_bottle("x").unwrap_err(), LifecycleError::NotRunning);
}
