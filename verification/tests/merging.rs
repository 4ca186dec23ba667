//! Matching changes, and errors.

use gitcore::classify::CorruptionError;
use gitcore::classify::Message;
use gitcore::classify::RetryableError;
use gitcore::classify::SourceError;
use gitcore::delta;
use gitcore::merge::first_location;
use gitcore::merge::matching;
use gitcore::merge::needs_diff;
use gitcore::merge::pair;
use gitcore::merge::second_location;
use gitcore::merge::Change;
use gitcore::merge::LineStats;
use gitcore::merge::MatchKind;
use gitcore::merge::PossibleConflict;
use gitcore::merge::TrackedChange;
use gitcore::oid::EntryKind;
use gitcore::oid::EntryMode;
use gitcore::oid::ObjectId;

fn id(byte: u8) -> ObjectId {
    ObjectId::new(&[byte; 20])
}

fn deletion(path: &str) -> Change {
    Change::Deletion {
        location: path.as_bytes().to_vec(),
        relation: None,
        entry_mode: EntryMode::of(EntryKind::Blob),
        id: id(1),
    }
}

fn modification(path: &str, to: u8) -> Change {
    Change::Modification {
        location: path.as_bytes().to_vec(),
        previous_entry_mode: EntryMode::of(EntryKind::Blob),
        previous_id: id(1),
        entry_mode: EntryMode::of(EntryKind::Blob),
        id: id(to),
    }
}

fn rewrite(from: &str, to: &str) -> Change {
    Change::Rewrite {
        source_location: from.as_bytes().to_vec(),
        source_relation: None,
        source_entry_mode: EntryMode::of(EntryKind::Blob),
        source_id: id(1),
        diff: None,
        entry_mode: EntryMode::of(EntryKind::Blob),
        id: id(1),
        location: to.as_bytes().to_vec(),
        relation: None,
        copy: false,
    }
}

fn fresh(inner: Change) -> TrackedChange {
    TrackedChange { inner, applied: false }
}

const FIRST: Option<PossibleConflict> = Some(PossibleConflict::Match { change_idx: 0 });

#[test]
fn conflicts_are_looked_for_at_up_to_two_places() {
    let theirs = rewrite("a", "b");
    assert_eq!(first_location(&theirs, &None), b"a");
    assert_eq!(first_location(&theirs, &Some((b"c".to_vec(), 3))), b"c");
    assert_eq!(second_location(&theirs, None), Some(b"b".to_vec()));
    assert_eq!(second_location(&theirs, FIRST), None);
    assert_eq!(second_location(&rewrite("a", "a"), None), None);
    assert_eq!(second_location(&deletion("a"), None), None);
    assert!(needs_diff(&id(1), &id(2)));
    assert!(!needs_diff(&id(1), &id(1)));
}

#[test]
fn the_same_change_on_both_sides_is_no_conflict() {
    let mut ours = vec![fresh(deletion("a")), fresh(modification("b", 2))];
    assert_eq!(matching(&deletion("a"), None, FIRST, None, &mut ours), None);
    assert!(ours[0].applied, "the removal must not run again");
    let second = Some(PossibleConflict::Match { change_idx: 1 });
    assert_eq!(matching(&modification("b", 2), None, second, None, &mut ours), None);
    assert!(!ours[1].applied);
    assert_eq!(
        matching(&modification("b", 3), None, second, None, &mut ours),
        second,
        "different changes conflict"
    );
    assert_eq!(
        matching(&modification("a", 3), None, FIRST, None, &mut ours),
        None,
        "an applied deletion is out of the way"
    );
}

#[test]
fn similarities_are_compared_as_numbers() {
    let with = |similarity: f32| match rewrite("a", "b") {
        Change::Rewrite {
            source_location,
            source_relation,
            source_entry_mode,
            source_id,
            entry_mode,
            id,
            location,
            relation,
            copy,
            ..
        } => Change::Rewrite {
            source_location,
            source_relation,
            source_entry_mode,
            source_id,
            diff: Some(LineStats {
                removals: 1,
                insertions: 2,
                before: 3,
                after: 4,
                similarity: similarity.to_bits(),
            }),
            entry_mode,
            id,
            location,
            relation,
            copy,
        },
        other => other,
    };
    for left in [0.0, -0.0, 0.5, 1.0, -1.0, f32::INFINITY, f32::NEG_INFINITY, f32::NAN] {
        for right in [0.0, -0.0, 0.5, 1.0, -1.0, f32::INFINITY, f32::NEG_INFINITY, f32::NAN] {
            assert_eq!(with(left).same(&with(right)), left == right, "{left} and {right}");
        }
        assert!(!with(left).same(&rewrite("a", "b")));
    }
}

#[test]
fn trees_may_be_marked_by_how_their_mode_is_written() {
    let plain = EntryMode::of(EntryKind::Tree);
    let marked = EntryMode { value: 0o140000 };
    assert!(plain.is_tree() && marked.is_tree() && !marked.is_blob());
    assert_eq!((plain.kind(), marked.kind()), (EntryKind::Tree, EntryKind::Tree));
    assert_ne!(plain, marked);
    assert_eq!(EntryMode { value: 0o160000 }.kind(), EntryKind::Commit);
}

#[test]
fn ignored_changes_and_unspecific_conflicts() {
    let mut ours = vec![fresh(rewrite("x", "b"))];
    let theirs = rewrite("a", "b");
    assert_eq!(matching(&theirs, Some(Some(0)), FIRST, None, &mut ours), None);
    assert_eq!(matching(&theirs, Some(None), FIRST, None, &mut ours), FIRST);
    assert_eq!(
        matching(&theirs, None, None, FIRST, &mut ours),
        FIRST,
        "rewrites to the same place conflict"
    );
    assert_eq!(matching(&deletion("a"), None, None, FIRST, &mut ours), None);
    let unspecific = Some(PossibleConflict::TreeToNonTree { change_idx: None });
    assert_eq!(matching(&theirs, None, unspecific, None, &mut ours), unspecific);
    assert_eq!(matching(&theirs, None, None, unspecific, &mut ours), None);
    let mut ours = vec![fresh(modification("b", 2))];
    assert_eq!(matching(&theirs, None, None, FIRST, &mut ours), None);
}

#[test]
fn conflicts_are_paired_with_changes() {
    let ours = vec![fresh(deletion("a")), fresh(modification("b", 2))];
    let tree = |change_idx: Option<usize>| PossibleConflict::TreeToNonTree { change_idx };
    assert_eq!(pair(tree(Some(0)), &ours), (Some(0), Some(MatchKind::EraseTree)));
    assert_eq!(pair(tree(Some(1)), &ours), (None, None));
    assert_eq!(pair(tree(None), &ours), (None, None));
    assert_eq!(
        pair(PossibleConflict::NonTreeToTree { change_idx: Some(1) }, &ours),
        (Some(1), Some(MatchKind::EraseLeaf))
    );
    assert_eq!(
        pair(PossibleConflict::NonTreeToTree { change_idx: None }, &ours),
        (None, Some(MatchKind::EraseLeaf))
    );
    assert_eq!(
        pair(PossibleConflict::Match { change_idx: 1 }, &ours),
        (Some(1), None)
    );
}

#[test]
fn errors_say_what_they_were_made_of() {
    assert_eq!(CorruptionError::new("checksum mismatch").text(), "checksum mismatch");
    assert_eq!(CorruptionError::new("owned".to_string()).text(), "owned");
    assert_eq!(CorruptionError::from(Message("message".into())).text(), "message");
    assert_eq!(CorruptionError::from("borrowed").text(), "borrowed");
    assert_eq!(CorruptionError::from("owned".to_string()).text(), "owned");
    let source = SourceError {
        message: "HTTP/2 stream failed".to_string(),
        source: None,
    };
    let err = RetryableError::new(source);
    assert_eq!(err.text(), "HTTP/2 stream failed");
    assert_eq!(err.source().message, "HTTP/2 stream failed");
    let err = delta::Error::InvariantIncreasingPackOffset {
        last_pack_offset: u64::MAX,
        pack_offset: 0,
    };
    assert_eq!(
        err.message(),
        "Pack offsets must only increment. The previous pack offset was 18446744073709551615, the current one is 0"
    );
}
