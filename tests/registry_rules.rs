use vinabar::{Registry, RegistryError, TrackState};

fn s(x: &str) -> String {
    x.to_string()
}

#[test]
fn sequence_ids_follow_first_sighting() {
    let mut r = Registry::new();
    assert_eq!(r.apply_update(&s("c"), 10, None, 0), Ok(0));
    assert_eq!(r.apply_update(&s("a"), 10, None, 0), Ok(1));
    assert_eq!(r.apply_update(&s("c"), 20, None, 0), Ok(0));
    assert_eq!(r.apply_update(&s("b"), 10, None, 0), Ok(2));
    assert_eq!(r.apply_update(&s("a"), 30, None, 0), Ok(1));
    assert_eq!(r.len(), 3);
    assert_eq!(r.track(0).sequence_id, 0);
    assert_eq!(r.track(1).sequence_id, 1);
    assert_eq!(r.track(2).sequence_id, 2);
    assert_eq!(r.find(&s("b")), Some(2));
    assert_eq!(r.find(&s("d")), None);
}

#[test]
fn lower_percentage_is_taken_as_is() {
    let mut r = Registry::new();
    r.apply_update(&s("job"), 7000, None, 0).unwrap();
    r.apply_update(&s("job"), 2500, Some(9), 0).unwrap();
    assert_eq!(r.track(0).percentage, 2500);
    assert_eq!(r.track(0).origin_id, Some(9));
    assert_eq!(r.track(0).state, TrackState::Active);
}

#[test]
fn done_is_terminal() {
    let mut r = Registry::new();
    r.apply_update(&s("job"), 9999, None, 1).unwrap();
    assert_eq!(r.track(0).state, TrackState::Active);
    r.apply_update(&s("job"), 10000, None, 2).unwrap();
    assert_eq!(r.track(0).state, TrackState::Done);
    assert_eq!(r.track(0).completed_at, Some(2));
    r.apply_update(&s("job"), 100, None, 3).unwrap();
    assert_eq!(r.track(0).state, TrackState::Done);
    assert_eq!(r.track(0).percentage, 100);
    assert_eq!(r.track(0).completed_at, Some(2));
    r.finalize_all(4).unwrap();
    assert_eq!(r.track(0).state, TrackState::Done);
    assert_eq!(r.track(0).abandoned_at, None);
}

#[test]
fn finalize_runs_once() {
    let mut r = Registry::new();
    r.apply_update(&s("a"), 100, None, 0).unwrap();
    r.apply_update(&s("b"), 10000, None, 0).unwrap();
    assert!(!r.is_finalized());
    assert_eq!(r.finalize_all(8), Ok(()));
    assert!(r.is_finalized());
    assert_eq!(r.track(0).state, TrackState::Abandoned);
    assert_eq!(r.track(0).abandoned_at, Some(8));
    assert_eq!(r.track(1).state, TrackState::Done);
    assert_eq!(r.finalize_all(9), Err(RegistryError::Finalized));
    assert_eq!(r.track(0).abandoned_at, Some(8));
    assert_eq!(r.apply_update(&s("c"), 1, None, 10), Err(RegistryError::Finalized));
    assert_eq!(r.apply_update(&s("a"), 1, None, 10), Err(RegistryError::Finalized));
    assert_eq!(r.len(), 2);
    assert_eq!(r.track(0).percentage, 100);
}

#[test]
fn finalize_of_empty_registry() {
    let mut r = Registry::new();
    assert_eq!(r.finalize_all(0), Ok(()));
    assert_eq!(r.len(), 0);
}
