use vinabar::{
    parse_line, BusRecord, Matcher, Pipeline, ProgressEvent, Publisher, RegistryError, Subscriber,
    TrackState,
};

const DEFAULT_PATTERN: &str = r"^([^:]+) *: *(\d+)%?";

fn local_event(m: &Matcher, line: &str) -> ProgressEvent {
    parse_line(m, line).unwrap().unwrap()
}

#[test]
fn local_lines_then_end_of_input() {
    let m = Matcher::new(DEFAULT_PATTERN).unwrap();
    let mut p = Pipeline::new(None);
    for line in ["build: 10%\n", "test: 5%\n", "build: 100%\n"] {
        let ev = local_event(&m, line);
        p.handle_event(&ev, 1).unwrap();
    }
    p.finish(2).unwrap();
    let r = &p.registry;
    assert_eq!(r.len(), 2);
    let build = r.track(0);
    assert_eq!(build.label, "build");
    assert_eq!(build.sequence_id, 0);
    assert_eq!(build.percentage, 10000);
    assert_eq!(build.state, TrackState::Done);
    assert_eq!(build.completed_at, Some(1));
    assert_eq!(build.abandoned_at, None);
    let test = r.track(1);
    assert_eq!(test.label, "test");
    assert_eq!(test.sequence_id, 1);
    assert_eq!(test.percentage, 500);
    assert_eq!(test.state, TrackState::Abandoned);
    assert_eq!(test.abandoned_at, Some(2));
}

#[test]
fn subscriber_filter_keeps_only_matching_labels() {
    let sub = Subscriber::new(Matcher::new("^build").unwrap(), false);
    let mut p = Pipeline::new(None);
    let records = vec![
        BusRecord { origin_id: 7, label: "build".to_string(), sequence_id: 0, percentage: 2500 },
        BusRecord { origin_id: 7, label: "test".to_string(), sequence_id: 1, percentage: 500 },
    ];
    let mut dropped = 0;
    for rec in records {
        match sub.accept(rec) {
            Some(ev) => {
                p.handle_event(&ev, 0).unwrap();
            }
            None => dropped += 1,
        }
    }
    assert_eq!(dropped, 1);
    assert_eq!(p.registry.len(), 1);
    assert_eq!(p.registry.track(0).label, "build");
    assert_eq!(p.registry.track(0).origin_id, Some(7));
    assert_eq!(p.registry.find(&"test".to_string()), None);
}

#[test]
fn published_record_round_trips_through_subscriber() {
    let mut p = Pipeline::new(Some(Publisher::new("/progress".to_string(), 4242)));
    let m = Matcher::new(DEFAULT_PATTERN).unwrap();
    p.handle_event(&local_event(&m, "alpha: 3\n"), 0).unwrap();
    let out = p.handle_event(&local_event(&m, "beta: 42.5%\n"), 0).unwrap();
    let rec = out.record.unwrap();
    assert_eq!(rec.origin_id, 4242);
    assert_eq!(rec.label, "beta");
    assert_eq!(rec.sequence_id, 1);
    assert_eq!(rec.percentage, 4200);
    let sub = Subscriber::new(Matcher::new(".*").unwrap(), false);
    let ev = sub.accept(rec).unwrap();
    assert_eq!(ev.origin_id, Some(4242));
    assert_eq!(ev.label, "beta");
    assert_eq!(ev.percentage, 4200);
}

#[test]
fn subscriber_shows_origin_in_label() {
    let sub = Subscriber::new(Matcher::new(".*").unwrap(), true);
    let rec = BusRecord { origin_id: 1203, label: "fetch".to_string(), sequence_id: 3, percentage: 10 };
    let ev = sub.accept(rec).unwrap();
    assert_eq!(ev.label, "1203:fetch");
    assert_eq!(ev.origin_id, Some(1203));
    assert_eq!(ev.percentage, 10);
}

#[test]
fn no_publisher_gives_no_record() {
    let mut p = Pipeline::new(None);
    let ev = ProgressEvent { origin_id: None, label: "a".to_string(), percentage: 10000 };
    let out = p.handle_event(&ev, 5).unwrap();
    assert!(out.record.is_none());
    assert!(out.completed);
    assert_eq!(out.index, 0);
    let again = p.handle_event(&ev, 6).unwrap();
    assert!(!again.completed);
    assert_eq!(p.registry.track(0).completed_at, Some(5));
}

#[test]
fn no_event_after_finish() {
    let mut p = Pipeline::new(None);
    let ev = ProgressEvent { origin_id: None, label: "a".to_string(), percentage: 10 };
    p.handle_event(&ev, 0).unwrap();
    assert_eq!(p.finish(1), Ok(()));
    assert_eq!(p.finish(2), Err(RegistryError::Finalized));
    let late = ProgressEvent { origin_id: None, label: "b".to_string(), percentage: 10 };
    assert!(matches!(p.handle_event(&late, 3), Err(RegistryError::Finalized)));
    assert_eq!(p.registry.len(), 1);
    assert_eq!(p.registry.track(0).abandoned_at, Some(1));
}

#[test]
fn custom_pattern_reads_number_without_whole_part() {
    let m = Matcher::new(r"^(\w+) ([0-9.]+)").unwrap();
    let mut p = Pipeline::new(None);
    let ev = local_event(&m, "load .5%\n");
    assert_eq!(ev.percentage, 50);
    p.handle_event(&ev, 0).unwrap();
    assert_eq!(p.registry.track(0).percentage, 50);
}
