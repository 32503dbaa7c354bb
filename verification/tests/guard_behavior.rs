use snapshoot::errors::SnapError;
use snapshoot::guard::{GuardAction, Initializer, ListingEntry, PathStatus};

fn good() -> PathStatus {
    PathStatus { is_absolute: true, exists: true, is_directory: true }
}

fn entry(name: &str, is_file: bool) -> ListingEntry {
    ListingEntry { name: name.to_string(), is_file }
}

#[test]
fn first_run_creates_the_marker() {
    let guard = Initializer::default();
    let r = guard.run(&good(), "pictures", &good(), &Vec::new());
    match r {
        Ok(GuardAction::CreateMarker { marker }) => {
            assert_eq!(marker, ".pictures.snapshoot");
        }
        other => panic!("unexpected outcome: {:?}", other),
    }
}

#[test]
fn guard_is_idempotent() {
    let guard = Initializer::default();
    // first run against an empty destination
    let first = guard.run(&good(), "pictures", &good(), &Vec::new());
    let marker = match first {
        Ok(GuardAction::CreateMarker { marker }) => marker,
        other => panic!("unexpected outcome: {:?}", other),
    };
    // the destination now holds exactly that marker file
    let listing = vec![entry(&marker, true)];
    let second = guard.run(&good(), "pictures", &good(), &listing);
    assert_eq!(second, Ok(GuardAction::AlreadyInitialized));
    // no second marker was asked for: exactly one marker remains
    assert_eq!(listing.len(), 1);
}

#[test]
fn binding_to_a_different_source_is_a_conflict() {
    let guard = Initializer::default();
    // destination bound to source A ...
    let listing = vec![entry(".music.snapshoot", true)];
    // ... then initialized against source B
    let r = guard.run(&good(), "pictures", &good(), &listing);
    assert_eq!(r, Err(SnapError::DestinationConflict));
}

#[test]
fn non_empty_destination_without_marker_is_rejected() {
    let guard = Initializer::default();
    let listing = vec![entry("leftover.txt", true)];
    let r = guard.run(&good(), "pictures", &good(), &listing);
    assert_eq!(r, Err(SnapError::DestinationNotEmpty));
}

#[test]
fn a_directory_is_never_a_conflicting_marker() {
    let guard = Initializer::default();
    // a directory whose name looks like a marker does not bind anything
    let listing = vec![entry(".music.snapshoot", false)];
    let r = guard.run(&good(), "pictures", &good(), &listing);
    assert_eq!(r, Err(SnapError::DestinationNotEmpty));
}

#[test]
fn leading_dot_only_name_has_no_extension() {
    let guard = Initializer::default();
    // ".snapshoot" has no extension, so it is clutter, not a foreign marker
    let listing = vec![entry(".snapshoot", true)];
    let r = guard.run(&good(), "pictures", &good(), &listing);
    assert_eq!(r, Err(SnapError::DestinationNotEmpty));
}

#[test]
fn relative_paths_are_invalid_input() {
    let guard = Initializer::default();
    let relative = PathStatus { is_absolute: false, exists: true, is_directory: true };
    let r = guard.run(&relative, "pictures", &good(), &Vec::new());
    assert_eq!(r, Err(SnapError::InvalidInput));
    let r = guard.run(&good(), "pictures", &relative, &Vec::new());
    assert_eq!(r, Err(SnapError::InvalidInput));
}

#[test]
fn missing_paths_are_invalid_input() {
    let guard = Initializer::default();
    let missing = PathStatus { is_absolute: true, exists: false, is_directory: false };
    let r = guard.run(&missing, "pictures", &good(), &Vec::new());
    assert_eq!(r, Err(SnapError::InvalidInput));
}

#[test]
fn non_directories_are_invalid_input() {
    let guard = Initializer::default();
    let plain_file = PathStatus { is_absolute: true, exists: true, is_directory: false };
    let r = guard.run(&good(), "pictures", &plain_file, &Vec::new());
    assert_eq!(r, Err(SnapError::InvalidInput));
}

#[test]
fn marker_name_is_derived_from_the_source_basename() {
    let guard = Initializer::default();
    assert_eq!(guard.marker_file_name("pictures"), ".pictures.snapshoot");
    assert_eq!(guard.marker_file_name("a.b"), ".a.b.snapshoot");
}

#[test]
fn conflict_wins_over_emptiness_check() {
    let guard = Initializer::default();
    // a foreign marker plus other clutter: the conflict is reported first
    let listing = vec![entry("clutter.txt", true), entry(".music.snapshoot", true)];
    let r = guard.run(&good(), "pictures", &good(), &listing);
    assert_eq!(r, Err(SnapError::DestinationConflict));
}
