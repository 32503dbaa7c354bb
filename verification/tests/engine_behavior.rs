use snapshoot::engine::SnapshotProcess;
use snapshoot::errors::SnapError;
use snapshoot::tree::{DirEntry, FsNode, PriorEntry, PriorNode, SnapEntry, SnapNode};

fn dir(entries: Vec<(&str, FsNode)>) -> FsNode {
    FsNode::Directory {
        entries: entries
            .into_iter()
            .map(|(name, node)| DirEntry { name: name.to_string(), node })
            .collect(),
    }
}

fn file(content: &[u8]) -> FsNode {
    FsNode::File { content: content.to_vec() }
}

fn prior_dir(entries: Vec<(&str, PriorNode)>) -> PriorNode {
    PriorNode::Directory {
        entries: entries
            .into_iter()
            .map(|(name, node)| PriorEntry { name: name.to_string(), node })
            .collect(),
    }
}

fn readable(content: &[u8]) -> PriorNode {
    PriorNode::Readable { content: content.to_vec() }
}

fn snap_child<'a>(t: &'a SnapNode, name: &str) -> &'a SnapNode {
    match t {
        SnapNode::Directory { entries } => {
            for SnapEntry { name: n, node } in entries {
                if n == name {
                    return node;
                }
            }
            panic!("no entry named {}", name);
        }
        _ => panic!("not a directory"),
    }
}

#[test]
fn fresh_completeness() {
    let source = dir(vec![
        ("a.txt", file(b"alpha")),
        (
            "sub",
            dir(vec![
                ("b.txt", file(b"beta")),
                ("link", FsNode::Symlink { target: "../a.txt".to_string() }),
            ]),
        ),
    ]);
    let p = SnapshotProcess::default();
    let today = p.run(&source, None).unwrap();

    match &today {
        SnapNode::Directory { entries } => assert_eq!(entries.len(), 2),
        _ => panic!("today is not a directory"),
    }
    assert_eq!(
        snap_child(&today, "a.txt"),
        &SnapNode::File { content: b"alpha".to_vec() }
    );
    let sub = snap_child(&today, "sub");
    assert_eq!(
        snap_child(sub, "b.txt"),
        &SnapNode::File { content: b"beta".to_vec() }
    );
    assert_eq!(
        snap_child(sub, "link"),
        &SnapNode::Symlink { target: "../a.txt".to_string() }
    );
}

#[test]
fn unchanged_file_linking() {
    let source = dir(vec![("a", dir(vec![("b.txt", file(b"hello"))]))]);
    let yesterday = prior_dir(vec![("a", prior_dir(vec![("b.txt", readable(b"hello"))]))]);
    let p = SnapshotProcess::default();
    let today = p.run(&source, Some(&yesterday)).unwrap();
    let b = snap_child(snap_child(&today, "a"), "b.txt");
    assert_eq!(b, &SnapNode::ContentLink);
}

#[test]
fn changed_file_copy() {
    let source = dir(vec![("a", dir(vec![("b.txt", file(b"hello!"))]))]);
    let yesterday = prior_dir(vec![("a", prior_dir(vec![("b.txt", readable(b"hello"))]))]);
    let p = SnapshotProcess::default();
    let today = p.run(&source, Some(&yesterday)).unwrap();
    let b = snap_child(snap_child(&today, "a"), "b.txt");
    assert_eq!(b, &SnapNode::File { content: b"hello!".to_vec() });
}

#[test]
fn new_file_fresh_copy_under_reconciliation() {
    let source = dir(vec![
        ("old.txt", file(b"kept")),
        ("new.txt", file(b"fresh data")),
    ]);
    let yesterday = prior_dir(vec![("old.txt", readable(b"kept"))]);
    let p = SnapshotProcess::default();
    let today = p.run(&source, Some(&yesterday)).unwrap();
    assert_eq!(snap_child(&today, "old.txt"), &SnapNode::ContentLink);
    assert_eq!(
        snap_child(&today, "new.txt"),
        &SnapNode::File { content: b"fresh data".to_vec() }
    );
}

#[test]
fn round_trip_linked_content() {
    let source_content: &[u8] = b"same bytes on both days";
    let source = dir(vec![("data.bin", file(source_content))]);
    let yesterday_content = source_content.to_vec();
    let yesterday = prior_dir(vec![("data.bin", PriorNode::Readable {
        content: yesterday_content.clone(),
    })]);
    let p = SnapshotProcess::default();
    let today = p.run(&source, Some(&yesterday)).unwrap();
    // the linked file resolves to yesterday's bytes; they equal the source's
    assert_eq!(snap_child(&today, "data.bin"), &SnapNode::ContentLink);
    assert_eq!(yesterday_content.as_slice(), source_content);
}

#[test]
fn unreadable_yesterday_entry_is_a_hard_error() {
    let source = dir(vec![("x", file(b"data"))]);
    let yesterday = prior_dir(vec![("x", PriorNode::Unreadable)]);
    let p = SnapshotProcess::default();
    assert_eq!(p.run(&source, Some(&yesterday)), Err(SnapError::TaskFailure));
}

#[test]
fn yesterday_directory_at_file_name_is_a_hard_error() {
    let source = dir(vec![("x", file(b"data"))]);
    let yesterday = prior_dir(vec![("x", prior_dir(vec![]))]);
    let p = SnapshotProcess::default();
    assert_eq!(p.run(&source, Some(&yesterday)), Err(SnapError::TaskFailure));
}

#[test]
fn symlink_kind_mismatch_falls_back_to_fresh() {
    let source = dir(vec![("s", FsNode::Symlink { target: "/elsewhere".to_string() })]);
    let yesterday = prior_dir(vec![("s", readable(b"was a file yesterday"))]);
    let p = SnapshotProcess::default();
    let today = p.run(&source, Some(&yesterday)).unwrap();
    assert_eq!(
        snap_child(&today, "s"),
        &SnapNode::Symlink { target: "/elsewhere".to_string() }
    );
}

#[test]
fn directory_over_yesterday_file_materializes_fresh() {
    let source = dir(vec![("d", dir(vec![("f.txt", file(b"inner"))]))]);
    let yesterday = prior_dir(vec![("d", readable(b"was a file yesterday"))]);
    let p = SnapshotProcess::default();
    let today = p.run(&source, Some(&yesterday)).unwrap();
    let f = snap_child(snap_child(&today, "d"), "f.txt");
    assert_eq!(f, &SnapNode::File { content: b"inner".to_vec() });
}

#[test]
fn empty_source_directory_mirrors_empty() {
    let source = dir(vec![]);
    let p = SnapshotProcess::default();
    assert_eq!(
        p.run(&source, None).unwrap(),
        SnapNode::Directory { entries: Vec::new() }
    );
    let yesterday = prior_dir(vec![("gone.txt", readable(b"old"))]);
    assert_eq!(
        p.run(&source, Some(&yesterday)).unwrap(),
        SnapNode::Directory { entries: Vec::new() }
    );
}
