use watch_upload::event::{settled_candidates, ChangeKind, RawEvent};

fn ev(kind: ChangeKind, paths: &[&str]) -> RawEvent {
    RawEvent { kind, paths: paths.iter().map(|s| s.to_string()).collect() }
}

#[test]
fn repeated_modifications_in_one_batch_give_one_candidate() {
    let batch: Vec<RawEvent> = (0..5).map(|_| ev(ChangeKind::Modified, &["/data/a.xls"])).collect();
    assert_eq!(settled_candidates(&batch), vec!["/data/a.xls".to_string()]);
}

#[test]
fn separate_batches_each_give_a_candidate() {
    let first = vec![ev(ChangeKind::Modified, &["/data/a.xls"]), ev(ChangeKind::Modified, &["/data/a.xls"])];
    let second = vec![ev(ChangeKind::Modified, &["/data/a.xls"])];
    let mut total = 0;
    for batch in [first, second] {
        total += settled_candidates(&batch).iter().filter(|p| p.as_str() == "/data/a.xls").count();
    }
    assert_eq!(total, 2);
}

#[test]
fn only_modifications_become_candidates() {
    let batch = vec![
        ev(ChangeKind::Created, &["/data/new.xls"]),
        ev(ChangeKind::Removed, &["/data/old.xls"]),
        ev(ChangeKind::Renamed, &["/data/x.xls", "/data/y.xls"]),
        ev(ChangeKind::Metadata, &["/data/m.xls"]),
        ev(ChangeKind::Other, &["/data/o.xls"]),
    ];
    assert!(settled_candidates(&batch).is_empty());
}

#[test]
fn candidates_keep_first_appearance_order() {
    let batch = vec![
        ev(ChangeKind::Modified, &["/data/b.xls", "/data/a.xls"]),
        ev(ChangeKind::Created, &["/data/c.xls"]),
        ev(ChangeKind::Modified, &["/data/a.xls", "/data/c.xls"]),
    ];
    let expected: Vec<String> = vec!["/data/b.xls".into(), "/data/a.xls".into(), "/data/c.xls".into()];
    assert_eq!(settled_candidates(&batch), expected);
}

#[test]
fn empty_batch_gives_no_candidates() {
    assert!(settled_candidates(&Vec::new()).is_empty());
}
