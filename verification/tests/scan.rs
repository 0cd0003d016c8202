use rarscanner::collector::{Collector, Message};
use rarscanner::order::{path_le, sort_by_path};
use rarscanner::record::{
    concurrency_for, default_concurrency, DiscoveredFile, FileMeta, ScanConfig, Timestamp,
};
use rarscanner::throttle::Throttle;
use rarscanner::walker::{
    decide, harvest, message_for, plan_walks, record_fetch, root_opens, EntryKind, Observation,
    Step, Visit, WalkEvent,
};

fn file(path: &str, size: u64) -> DiscoveredFile {
    DiscoveredFile { path: path.as_bytes().to_vec(), size, modified: None }
}

fn seen(path: &str, kind: EntryKind, size: Option<u64>) -> Observation {
    Observation {
        event: WalkEvent::Entry(Visit { path: path.as_bytes().to_vec(), kind }),
        meta: size.map(|s| FileMeta { size: s, modified: Some(Timestamp { secs: 1_700_000_000, nanos: 5 }) }),
    }
}

fn summary(files: &[DiscoveredFile]) -> Vec<(String, u64)> {
    files.iter().map(|f| (String::from_utf8(f.path.clone()).unwrap(), f.size)).collect()
}

fn collect(roots: usize, walks: &[Vec<Observation>]) -> Vec<DiscoveredFile> {
    let mut collector = Collector::new(roots);
    for (i, walk) in walks.iter().enumerate() {
        for f in harvest(walk).files {
            collector.receive(Message::Found(f));
        }
        collector.receive(Message::RootDone { root: i });
    }
    assert!(collector.is_complete());
    let out = collector.finish();
    assert!(out.complete);
    assert!(out.failed_roots.is_empty());
    out.files
}

#[test]
fn config_defaults_root_and_floors_concurrency() {
    let c = ScanConfig::new(Vec::new(), 0, false);
    assert_eq!(c.roots, vec![".".to_string()]);
    assert_eq!(c.concurrency, 1);
    assert!(!c.follow_symlinks);
}

#[test]
fn config_keeps_what_it_is_given() {
    let c = ScanConfig::new(vec!["A".to_string(), "B".to_string()], 4, true);
    assert_eq!(c.roots, vec!["A".to_string(), "B".to_string()]);
    assert_eq!(c.concurrency, 4);
    assert!(c.follow_symlinks);
}

#[test]
fn default_concurrency_is_four_per_processor() {
    assert_eq!(concurrency_for(0), 1);
    assert_eq!(concurrency_for(1), 4);
    assert_eq!(concurrency_for(8), 32);
    assert_eq!(concurrency_for(usize::MAX), usize::MAX);
    assert_eq!(concurrency_for(usize::MAX / 4), (usize::MAX / 4) * 4);
    assert_eq!(concurrency_for(usize::MAX / 4 + 1), usize::MAX);
    let n = default_concurrency();
    assert!(n >= 4);
    assert!(n % 4 == 0 || n == usize::MAX);
}

#[test]
fn one_plan_per_root_in_order() {
    let c = ScanConfig::new(vec!["A".to_string(), "B".to_string()], 4, true);
    let plans = plan_walks(&c);
    assert_eq!(plans.len(), 2);
    assert_eq!(plans[0].root, "A");
    assert_eq!(plans[1].root, "B");
    for p in &plans {
        assert!(p.follow_links);
        assert!(!p.skip_hidden);
        assert!(p.git_ignore && p.git_global && p.git_exclude);
    }
    let c = ScanConfig::new(Vec::new(), 1, false);
    let plans = plan_walks(&c);
    assert_eq!(plans.len(), 1);
    assert_eq!(plans[0].root, ".");
    assert!(!plans[0].follow_links);
}

#[test]
fn plans_do_not_depend_on_concurrency() {
    let a = plan_walks(&ScanConfig::new(vec!["A".to_string()], 1, false));
    let b = plan_walks(&ScanConfig::new(vec!["A".to_string()], 64, false));
    assert_eq!(a.len(), b.len());
    assert_eq!(a[0].root, b[0].root);
    assert_eq!(a[0].follow_links, b[0].follow_links);
    assert_eq!(a[0].skip_hidden, b[0].skip_hidden);
}

#[test]
fn throttle_hands_out_no_more_than_its_capacity() {
    let mut t = Throttle::new(2);
    assert_eq!(t.capacity(), 2);
    assert_eq!(t.available(), 2);
    let one = t.try_acquire().expect("first permit");
    let two = t.try_acquire().expect("second permit");
    assert_eq!(t.in_flight(), 2);
    assert_eq!(t.available(), 0);
    assert!(t.try_acquire().is_none());
    assert_eq!(t.in_flight(), 2);
    t.release(one);
    assert_eq!(t.in_flight(), 1);
    let three = t.try_acquire().expect("permit after release");
    assert!(t.try_acquire().is_none());
    t.release(two);
    t.release(three);
    assert_eq!(t.in_flight(), 0);
    assert_eq!(t.available(), 2);
}

#[test]
fn throttle_capacity_has_a_floor_of_one() {
    let mut t = Throttle::new(0);
    assert_eq!(t.capacity(), 1);
    let p = t.try_acquire().expect("the one permit");
    assert!(t.try_acquire().is_none());
    t.release(p);
    assert!(t.try_acquire().is_some());
}

#[test]
fn only_regular_files_with_the_extension_are_fetched() {
    let ev = |p: &str, kind| WalkEvent::Entry(Visit { path: p.as_bytes().to_vec(), kind });
    assert_eq!(decide(&ev("A/x.rar", EntryKind::File)), Step::FetchMetadata);
    assert_eq!(decide(&ev("A/.hidden.RAR", EntryKind::File)), Step::FetchMetadata);
    assert_eq!(decide(&ev("A/y.txt", EntryKind::File)), Step::Skip);
    assert_eq!(decide(&ev("A/dir.rar", EntryKind::Directory)), Step::Skip);
    assert_eq!(decide(&ev("A/link.rar", EntryKind::Symlink)), Step::Skip);
    assert_eq!(decide(&ev("A/pipe.rar", EntryKind::Other)), Step::Skip);
    assert_eq!(decide(&WalkEvent::Failed), Step::CountSkipped);
}

#[test]
fn a_failed_fetch_gives_no_record() {
    let mut gate = Throttle::new(1);
    let permit = gate.try_acquire().expect("a permit");
    assert!(record_fetch(&permit, b"A/x.rar".to_vec(), None).is_none());
    let t = Timestamp { secs: 12, nanos: 34 };
    let f = record_fetch(&permit, b"A/x.rar".to_vec(), Some(FileMeta { size: 10, modified: Some(t) }))
        .expect("a record");
    assert_eq!(f.path, b"A/x.rar".to_vec());
    assert_eq!(f.size, 10);
    assert_eq!(f.modified, Some(t));
    let g = record_fetch(&permit, b"q.rar".to_vec(), Some(FileMeta { size: 0, modified: None }))
        .unwrap();
    assert_eq!(g.size, 0);
    assert_eq!(g.modified, None);
    gate.release(permit);
    assert_eq!(gate.in_flight(), 0);
}

#[test]
fn harvest_keeps_qualifying_files_in_order() {
    let walk = vec![
        seen("A", EntryKind::Directory, Some(4096)),
        seen("A/x.rar", EntryKind::File, Some(10)),
        Observation { event: WalkEvent::Failed, meta: Some(FileMeta { size: 1, modified: None }) },
        seen("A/y.txt", EntryKind::File, Some(5)),
        seen("A/gone.rar", EntryKind::File, None),
        seen("A/b.RAR", EntryKind::File, Some(3)),
    ];
    let out = harvest(&walk);
    let found = out.files;
    assert_eq!(summary(&found), vec![("A/x.rar".to_string(), 10), ("A/b.RAR".to_string(), 3)]);
    assert_eq!(found[0].modified, Some(Timestamp { secs: 1_700_000_000, nanos: 5 }));
    assert_eq!(out.skipped, 2);
    let nothing = harvest(&Vec::new());
    assert!(nothing.files.is_empty());
    assert_eq!(nothing.skipped, 0);
}

#[test]
fn two_roots_give_two_records_sorted_by_path() {
    let a = vec![
        seen("A", EntryKind::Directory, Some(4096)),
        seen("A/x.rar", EntryKind::File, Some(10)),
        seen("A/y.txt", EntryKind::File, Some(5)),
    ];
    let b = vec![seen("B", EntryKind::Directory, Some(4096)), seen("B/z.RAR", EntryKind::File, Some(20))];
    let config = ScanConfig::new(vec!["A".to_string(), "B".to_string()], 4, false);
    assert_eq!(plan_walks(&config).len(), 2);
    let found = collect(2, &[b.clone(), a.clone()]);
    assert_eq!(found.len(), 2);
    let sorted = sort_by_path(found);
    assert_eq!(summary(&sorted), vec![("A/x.rar".to_string(), 10), ("B/z.RAR".to_string(), 20)]);
}

#[test]
fn a_link_that_is_not_followed_is_a_leaf() {
    let not_followed = vec![seen("C", EntryKind::Directory, Some(4096)), seen("C/link", EntryKind::Symlink, Some(1))];
    assert!(collect(1, &[not_followed]).is_empty());
    let followed = vec![
        seen("C", EntryKind::Directory, Some(4096)),
        seen("C/link", EntryKind::Directory, Some(4096)),
        seen("C/link/w.rar", EntryKind::File, Some(7)),
    ];
    let found = collect(1, &[followed]);
    assert_eq!(summary(&found), vec![("C/link/w.rar".to_string(), 7)]);
}

#[test]
fn roots_together_give_the_union_of_each_alone() {
    let a = vec![seen("A/x.rar", EntryKind::File, Some(10)), seen("A/k.rar", EntryKind::File, Some(11))];
    let b = vec![seen("B/z.RAR", EntryKind::File, Some(20))];
    let alone_a = summary(&collect(1, &[a.clone()]));
    let alone_b = summary(&collect(1, &[b.clone()]));
    let both = summary(&collect(2, &[a, b]));
    let mut union = alone_a.clone();
    union.extend(alone_b);
    assert_eq!(both, union);
}

#[test]
fn sorted_output_does_not_depend_on_arrival_order() {
    let one = vec![file("b.rar", 2), file("a.rar", 1), file("c.rar", 3)];
    let two = vec![file("c.rar", 3), file("b.rar", 2), file("a.rar", 1)];
    let expected = vec![("a.rar".to_string(), 1), ("b.rar".to_string(), 2), ("c.rar".to_string(), 3)];
    assert_eq!(summary(&sort_by_path(one)), expected);
    assert_eq!(summary(&sort_by_path(two)), expected);
}

#[test]
fn sorting_twice_changes_nothing() {
    let once = sort_by_path(vec![file("b.rar", 2), file("a.rar", 1)]);
    let first = summary(&once);
    let twice = sort_by_path(once);
    assert_eq!(summary(&twice), first);
}

#[test]
fn sort_is_bytewise_and_stable() {
    let sorted = sort_by_path(vec![
        file("a/b", 1),
        file("a.b", 2),
        file("a", 3),
        file("a/b", 4),
        file("B", 5),
        file("", 6),
        file("a/b", 7),
    ]);
    assert_eq!(
        summary(&sorted),
        vec![
            ("".to_string(), 6),
            ("B".to_string(), 5),
            ("a".to_string(), 3),
            ("a.b".to_string(), 2),
            ("a/b".to_string(), 1),
            ("a/b".to_string(), 4),
            ("a/b".to_string(), 7),
        ]
    );
    assert!(sort_by_path(Vec::new()).is_empty());
}

#[test]
fn paths_compare_byte_by_byte() {
    assert!(path_le(b"", b""));
    assert!(path_le(b"", b"a"));
    assert!(!path_le(b"a", b""));
    assert!(path_le(b"a", b"a"));
    assert!(path_le(b"a", b"ab"));
    assert!(!path_le(b"ab", b"a"));
    assert!(path_le(b"ab", b"b"));
    assert!(!path_le(b"b", b"ab"));
    assert!(path_le(b"Z", b"a"));
    assert!(path_le(&[0x7f], &[0x80]));
}

#[test]
fn collector_waits_for_every_root() {
    let mut c = Collector::new(3);
    assert!(!c.is_complete());
    c.receive(Message::Found(file("A/x.rar", 10)));
    c.receive(Message::RootDone { root: 0 });
    assert!(!c.is_complete());
    c.receive(Message::RootFailed { root: 2 });
    assert!(!c.is_complete());
    c.receive(Message::Found(file("B/z.rar", 20)));
    assert_eq!(c.len(), 2);
    c.receive(Message::RootDone { root: 1 });
    assert!(c.is_complete());
    c.receive(Message::RootDone { root: 1 });
    assert!(c.is_complete());
    let out = c.finish();
    assert!(out.complete);
    assert_eq!(out.failed_roots, vec![2]);
    assert_eq!(summary(&out.files), vec![("A/x.rar".to_string(), 10), ("B/z.rar".to_string(), 20)]);
}

#[test]
fn collector_without_roots_is_complete_at_once() {
    let c = Collector::new(0);
    assert!(c.is_complete());
    let out = c.finish();
    assert!(out.complete);
    assert!(out.files.is_empty());
    assert!(out.failed_roots.is_empty());
}

#[test]
fn unfinished_collection_says_so() {
    let mut c = Collector::new(2);
    c.receive(Message::RootDone { root: 0 });
    let out = c.finish();
    assert!(!out.complete);
}

#[test]
fn overlapping_roots_keep_their_duplicates() {
    let a = vec![seen("A/x.rar", EntryKind::File, Some(10))];
    let found = collect(2, &[a.clone(), a]);
    assert_eq!(summary(&found), vec![("A/x.rar".to_string(), 10), ("A/x.rar".to_string(), 10)]);
}

#[test]
fn only_a_directory_opens_as_a_root() {
    assert!(root_opens(Some(EntryKind::Directory)));
    assert!(!root_opens(Some(EntryKind::File)));
    assert!(!root_opens(Some(EntryKind::Symlink)));
    assert!(!root_opens(Some(EntryKind::Other)));
    assert!(!root_opens(None));
}

#[test]
fn a_batch_is_received_in_order() {
    let mut c = Collector::new(2);
    c.receive(Message::Found(file("0.rar", 0)));
    c.receive_all(vec![
        Message::Found(file("1.rar", 1)),
        Message::RootFailed { root: 1 },
        Message::Found(file("2.rar", 2)),
        Message::RootDone { root: 0 },
        Message::Found(file("3.rar", 3)),
    ]);
    assert!(c.is_complete());
    c.receive_all(Vec::new());
    let out = c.finish();
    assert_eq!(out.failed_roots, vec![1]);
    assert_eq!(
        summary(&out.files),
        vec![
            ("0.rar".to_string(), 0),
            ("1.rar".to_string(), 1),
            ("2.rar".to_string(), 2),
            ("3.rar".to_string(), 3),
        ]
    );
}

#[test]
fn mixed_arrival_gives_the_same_report() {
    let a = vec![Message::Found(file("A/x.rar", 10)), Message::Found(file("A/k.rar", 11)), Message::RootDone { root: 0 }];
    let b = vec![Message::Found(file("B/z.RAR", 20)), Message::RootDone { root: 1 }];
    let mut one = Collector::new(2);
    one.receive_all(a.clone());
    one.receive_all(b.clone());
    let mut two = Collector::new(2);
    two.receive(b[0].clone());
    two.receive(a[0].clone());
    two.receive(b[1].clone());
    two.receive(a[1].clone());
    two.receive(a[2].clone());
    assert!(one.is_complete() && two.is_complete());
    let first = summary(&sort_by_path(one.finish().files));
    let second = summary(&sort_by_path(two.finish().files));
    assert_eq!(first, second);
    assert_eq!(
        first,
        vec![("A/k.rar".to_string(), 11), ("A/x.rar".to_string(), 10), ("B/z.RAR".to_string(), 20)]
    );
}

#[test]
fn files_can_be_received_in_one_piece() {
    let mut c = Collector::new(1);
    c.receive_files(vec![file("b.rar", 2), file("a.rar", 1)]);
    c.receive_files(Vec::new());
    assert!(!c.is_complete());
    assert_eq!(c.len(), 2);
    c.receive(Message::RootDone { root: 0 });
    let out = c.finish();
    assert_eq!(summary(&out.files), vec![("b.rar".to_string(), 2), ("a.rar".to_string(), 1)]);
}

#[test]
fn unreadable_entries_are_counted() {
    let mut c = Collector::new(1);
    c.receive(Message::Skipped);
    c.receive_all(vec![Message::Skipped, Message::Found(file("a.rar", 1)), Message::Skipped]);
    c.receive_skips(4);
    c.receive_skips(0);
    assert!(!c.is_complete());
    assert_eq!(c.len(), 1);
    c.receive(Message::RootDone { root: 0 });
    let out = c.finish();
    assert_eq!(out.skipped, 7);
    assert!(out.complete);
}

#[test]
fn the_count_of_unreadable_entries_stops_at_the_top() {
    let mut c = Collector::new(0);
    c.receive_skips(usize::MAX - 1);
    c.receive(Message::Skipped);
    c.receive(Message::Skipped);
    c.receive_skips(5);
    assert_eq!(c.finish().skipped, usize::MAX);
}

#[test]
fn a_fetch_becomes_a_message() {
    assert!(matches!(message_for(None), Message::Skipped));
    match message_for(Some(file("a.rar", 3))) {
        Message::Found(f) => {
            assert_eq!(f.path, b"a.rar".to_vec());
            assert_eq!(f.size, 3);
        }
        _ => panic!("a record was expected"),
    }
}
