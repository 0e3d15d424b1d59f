use snow_plow::batch::BatchUpdater;
use snow_plow::errors::{Error, ErrorRecord};
use snow_plow::registry::Interface;

fn registry() -> Interface {
    let mut itf = Interface::new("/cfg".to_string(), false, false);
    let text = "name,location,enabled\na,/a,true\nb,/b,true\nc,/c,true\nd,/d,false\n";
    itf.init(text).unwrap();
    itf
}

fn failure(title: &str) -> Result<(), Vec<Error>> {
    Err(vec![Error::Nix(ErrorRecord { title: title.to_string(), details: Vec::new() })])
}

#[test]
fn second_failure_blocks_nothing() {
    let itf = registry();
    let mut batch = itf.update_flakes(None).unwrap();
    let mut visited: Vec<String> = Vec::new();
    while let Some((name, location)) = batch.next_target() {
        assert_eq!(location, format!("/{}", name));
        let outcome = if name == "b" { failure("error: broke") } else { Ok(()) };
        visited.push(name);
        batch.record_outcome(outcome);
    }
    assert_eq!(visited, vec!["a".to_string(), "b".to_string(), "c".to_string()]);
    assert_eq!(batch.failure_count(), 1);
    let failures = batch.into_failures();
    assert_eq!(failures.len(), 1);
    assert_eq!(failures[0].0, "b");
    assert!(matches!(&failures[0].1[0], Error::Nix(r) if r.title == "error: broke"));
}

#[test]
fn whole_registry_update_skips_disabled() {
    let itf = registry();
    let batch = itf.update_flakes(None).unwrap();
    let (done_so_far, total) = batch.progress();
    assert_eq!(done_so_far, 0);
    assert_eq!(total, 3);
}

#[test]
fn named_update_of_disabled_entry_is_silent_no_op() {
    let itf = registry();
    let batch = itf.update_flakes(Some("d".to_string())).unwrap();
    assert!(batch.done());
    assert!(batch.next_target().is_none());
    assert_eq!(batch.failure_count(), 0);
    let (_, total) = batch.progress();
    assert_eq!(total, 0);
}

#[test]
fn named_update_of_enabled_entry_targets_it_alone() {
    let itf = registry();
    let mut batch = itf.update_flakes(Some("b".to_string())).unwrap();
    let (name, location) = batch.next_target().unwrap();
    assert_eq!(name, "b");
    assert_eq!(location, "/b");
    batch.record_outcome(Ok(()));
    assert!(batch.done());
    assert_eq!(batch.failure_count(), 0);
}

#[test]
fn named_update_of_unknown_entry_fails() {
    let itf = registry();
    let es = itf.update_flakes(Some("ghost".to_string())).unwrap_err();
    assert_eq!(es.len(), 1);
    assert!(matches!(&es[0], Error::NoFlake(n) if n == "ghost"));
    assert_eq!(es[0].msg(), "no flake named `ghost`");
}

#[test]
fn progress_counts_recorded_outcomes() {
    let mut batch = BatchUpdater::new(vec![
        ("a".to_string(), "/a".to_string()),
        ("b".to_string(), "/b".to_string()),
    ]);
    assert_eq!(batch.progress(), (0, 2));
    assert!(!batch.done());
    batch.record_outcome(failure("error: one"));
    assert_eq!(batch.progress(), (1, 2));
    batch.record_outcome(failure("error: two"));
    assert_eq!(batch.progress(), (2, 2));
    assert!(batch.done());
    assert_eq!(batch.failure_count(), 2);
    let failures = batch.into_failures();
    assert_eq!(failures[0].0, "a");
    assert_eq!(failures[1].0, "b");
}
