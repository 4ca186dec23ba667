//! Matching the changes of two sides of a merge with each other.

use vstd::prelude::*;
use vstd::slice::slice_to_vec;

use crate::bytes::bytes_equal;
use crate::oid::EntryMode;
use crate::oid::ObjectId;

verus! {

/// How a change relates to others that came with it.
#[derive(Clone, Copy, Debug, Eq, PartialEq, Structural)]
pub enum Relation {
    /// It is the tree with this number, and others are in it.
    Parent(u32),
    /// It is in the tree with this number.
    ChildOfParent(u32),
}

/// How much of a file changed.
#[derive(Clone, Copy, Debug)]
pub struct LineStats {
    pub removals: u32,
    pub insertions: u32,
    pub before: usize,
    pub after: usize,
    /// How similar the files are, as the bits of a floating-point number.
    pub similarity: u32,
}

/// The bits of a floating-point number without the one for its sign.
pub open spec fn magnitude(bits: u32) -> int {
    bits as int % 0x8000_0000
}

/// Whether floating-point numbers with these bits are equal: what is not a number equals nothing, and
/// zeros are equal whatever their sign.
pub open spec fn equal_numbers(left: u32, right: u32) -> bool {
    &&& magnitude(left) <= 0x7f80_0000
    &&& magnitude(right) <= 0x7f80_0000
    &&& left == right || (magnitude(left) == 0 && magnitude(right) == 0)
}

/// Whether the same amount of a file changed.
pub open spec fn equal_stats(left: Option<LineStats>, right: Option<LineStats>) -> bool {
    match (left, right) {
        (Some(left), Some(right)) => {
            &&& left.removals == right.removals
            &&& left.insertions == right.insertions
            &&& left.before == right.before
            &&& left.after == right.after
            &&& equal_numbers(left.similarity, right.similarity)
        },
        (None, None) => true,
        _ => false,
    }
}

/// A difference between two trees.
#[derive(Clone, Debug)]
pub enum Change {
    Addition { location: Vec<u8>, relation: Option<Relation>, entry_mode: EntryMode, id: ObjectId },
    Deletion { location: Vec<u8>, relation: Option<Relation>, entry_mode: EntryMode, id: ObjectId },
    Modification {
        location: Vec<u8>,
        previous_entry_mode: EntryMode,
        previous_id: ObjectId,
        entry_mode: EntryMode,
        id: ObjectId,
    },
    Rewrite {
        source_location: Vec<u8>,
        source_relation: Option<Relation>,
        source_entry_mode: EntryMode,
        source_id: ObjectId,
        diff: Option<LineStats>,
        entry_mode: EntryMode,
        id: ObjectId,
        location: Vec<u8>,
        relation: Option<Relation>,
        copy: bool,
    },
}

/// What a [`Change`] says.
pub enum ChangeView {
    Addition { location: Seq<u8>, relation: Option<Relation>, entry_mode: EntryMode, id: Seq<u8> },
    Deletion { location: Seq<u8>, relation: Option<Relation>, entry_mode: EntryMode, id: Seq<u8> },
    Modification {
        location: Seq<u8>,
        previous_entry_mode: EntryMode,
        previous_id: Seq<u8>,
        entry_mode: EntryMode,
        id: Seq<u8>,
    },
    Rewrite {
        source_location: Seq<u8>,
        source_relation: Option<Relation>,
        source_entry_mode: EntryMode,
        source_id: Seq<u8>,
        diff: Option<LineStats>,
        entry_mode: EntryMode,
        id: Seq<u8>,
        location: Seq<u8>,
        relation: Option<Relation>,
        copy: bool,
    },
}

impl View for Change {
    type V = ChangeView;

    open spec fn view(&self) -> ChangeView {
        match self {
            Change::Addition { location, relation, entry_mode, id } => ChangeView::Addition {
                location: location@,
                relation: *relation,
                entry_mode: *entry_mode,
                id: id@,
            },
            Change::Deletion { location, relation, entry_mode, id } => ChangeView::Deletion {
                location: location@,
                relation: *relation,
                entry_mode: *entry_mode,
                id: id@,
            },
            Change::Modification { location, previous_entry_mode, previous_id, entry_mode, id } =>
                ChangeView::Modification {
                    location: location@,
                    previous_entry_mode: *previous_entry_mode,
                    previous_id: previous_id@,
                    entry_mode: *entry_mode,
                    id: id@,
                },
            Change::Rewrite {
                source_location,
                source_relation,
                source_entry_mode,
                source_id,
                diff,
                entry_mode,
                id,
                location,
                relation,
                copy,
            } => ChangeView::Rewrite {
                source_location: source_location@,
                source_relation: *source_relation,
                source_entry_mode: *source_entry_mode,
                source_id: source_id@,
                diff: *diff,
                entry_mode: *entry_mode,
                id: id@,
                location: location@,
                relation: *relation,
                copy: *copy,
            },
        }
    }
}

impl ChangeView {
    /// What is known of how much of a file changed.
    pub open spec fn stats(self) -> Option<LineStats> {
        match self {
            ChangeView::Rewrite { diff, .. } => diff,
            _ => None,
        }
    }

    /// The change without regard to how much of a file changed.
    pub open spec fn without_stats(self) -> ChangeView {
        match self {
            ChangeView::Rewrite {
                source_location,
                source_relation,
                source_entry_mode,
                source_id,
                diff: _,
                entry_mode,
                id,
                location,
                relation,
                copy,
            } => ChangeView::Rewrite {
                source_location,
                source_relation,
                source_entry_mode,
                source_id,
                diff: None,
                entry_mode,
                id,
                location,
                relation,
                copy,
            },
            change => change,
        }
    }

    /// Whether both are the same change.
    pub open spec fn equals(self, other: ChangeView) -> bool {
        self.without_stats() == other.without_stats() && equal_stats(self.stats(), other.stats())
    }

    /// Where the change begins: at the source of a rewrite.
    pub open spec fn source_location(self) -> Seq<u8> {
        match self {
            ChangeView::Addition { location, .. } => location,
            ChangeView::Deletion { location, .. } => location,
            ChangeView::Modification { location, .. } => location,
            ChangeView::Rewrite { source_location, .. } => source_location,
        }
    }

    /// Where a rewrite leads to, if that is another place.
    pub open spec fn other_location(self) -> Option<Seq<u8>> {
        match self {
            ChangeView::Rewrite { source_location, location, .. } => if source_location != location {
                Some(location)
            } else {
                None
            },
            _ => None,
        }
    }

    /// Whether applying this removes its source.
    pub open spec fn removes_source(self) -> bool {
        self is Deletion || self is Rewrite
    }
}

fn same_relation(left: &Option<Relation>, right: &Option<Relation>) -> (same: bool)
    ensures
        same == (*left == *right),
{
    match (left, right) {
        (None, None) => true,
        (Some(left), Some(right)) => *left == *right,
        _ => false,
    }
}

fn same_number(left: u32, right: u32) -> (same: bool)
    ensures
        same == equal_numbers(left, right),
{
    let left_size: u32 = left % 0x8000_0000;
    let right_size: u32 = right % 0x8000_0000;
    left_size <= 0x7f80_0000 && right_size <= 0x7f80_0000 && (left == right || (left_size == 0
        && right_size == 0))
}

fn same_stats(left: &Option<LineStats>, right: &Option<LineStats>) -> (same: bool)
    ensures
        same == equal_stats(*left, *right),
{
    match (left, right) {
        (None, None) => true,
        (Some(left), Some(right)) => left.removals == right.removals && left.insertions
            == right.insertions && left.before == right.before && left.after == right.after
            && same_number(left.similarity, right.similarity),
        _ => false,
    }
}

impl Change {
    /// Whether both are the same change.
    pub fn same(&self, other: &Change) -> (same: bool)
        ensures
            same == self@.equals(other@),
    {
        match (self, other) {
            (
                Change::Addition { location, relation, entry_mode, id },
                Change::Addition {
                    location: other_location,
                    relation: other_relation,
                    entry_mode: other_mode,
                    id: other_id,
                },
            ) => bytes_equal(location.as_slice(), other_location.as_slice()) && same_relation(
                relation,
                other_relation,
            ) && *entry_mode == *other_mode && id.same(other_id),
            (
                Change::Deletion { location, relation, entry_mode, id },
                Change::Deletion {
                    location: other_location,
                    relation: other_relation,
                    entry_mode: other_mode,
                    id: other_id,
                },
            ) => bytes_equal(location.as_slice(), other_location.as_slice()) && same_relation(
                relation,
                other_relation,
            ) && *entry_mode == *other_mode && id.same(other_id),
            (
                Change::Modification { location, previous_entry_mode, previous_id, entry_mode, id },
                Change::Modification {
                    location: other_location,
                    previous_entry_mode: other_previous_mode,
                    previous_id: other_previous_id,
                    entry_mode: other_mode,
                    id: other_id,
                },
            ) => bytes_equal(location.as_slice(), other_location.as_slice()) && *previous_entry_mode
                == *other_previous_mode && previous_id.same(other_previous_id) && *entry_mode
                == *other_mode && id.same(other_id),
            (
                Change::Rewrite {
                    source_location,
                    source_relation,
                    source_entry_mode,
                    source_id,
                    diff,
                    entry_mode,
                    id,
                    location,
                    relation,
                    copy,
                },
                Change::Rewrite {
                    source_location: other_source_location,
                    source_relation: other_source_relation,
                    source_entry_mode: other_source_mode,
                    source_id: other_source_id,
                    diff: other_diff,
                    entry_mode: other_mode,
                    id: other_id,
                    location: other_location,
                    relation: other_relation,
                    copy: other_copy,
                },
            ) => bytes_equal(source_location.as_slice(), other_source_location.as_slice())
                && same_relation(source_relation, other_source_relation) && *source_entry_mode
                == *other_source_mode && source_id.same(other_source_id) && same_stats(
                diff,
                other_diff,
            ) && *entry_mode == *other_mode && id.same(other_id) && bytes_equal(
                location.as_slice(),
                other_location.as_slice(),
            ) && same_relation(relation, other_relation) && *copy == *other_copy,
            _ => false,
        }
    }

    /// Where the change begins: at the source of a rewrite.
    pub fn source_location(&self) -> (location: &[u8])
        ensures
            location@ == self@.source_location(),
    {
        match self {
            Change::Addition { location, .. } => location.as_slice(),
            Change::Deletion { location, .. } => location.as_slice(),
            Change::Modification { location, .. } => location.as_slice(),
            Change::Rewrite { source_location, .. } => source_location.as_slice(),
        }
    }

    /// Where a rewrite leads to, if that is another place.
    pub fn other_location(&self) -> (location: Option<&[u8]>)
        ensures
            match location {
                Some(location) => self@.other_location() == Some(location@),
                None => self@.other_location() is None,
            },
    {
        match self {
            Change::Rewrite { source_location, location, .. } => {
                if bytes_equal(source_location.as_slice(), location.as_slice()) {
                    None
                } else {
                    Some(location.as_slice())
                }
            },
            _ => None,
        }
    }

    fn is_rewrite(&self) -> (rewrite: bool)
        ensures
            rewrite == (self@ is Rewrite),
    {
        matches!(self, Change::Rewrite { .. })
    }

    fn is_deletion(&self) -> (deletion: bool)
        ensures
            deletion == (self@ is Deletion),
    {
        matches!(self, Change::Deletion { .. })
    }
}

/// A change that may have been applied.
#[derive(Clone, Debug)]
pub struct TrackedChange {
    /// The change.
    pub inner: Change,
    /// Whether it was applied.
    pub applied: bool,
}

/// What a [`TrackedChange`] says.
#[verifier::ext_equal]
pub struct TrackedChangeView {
    pub inner: ChangeView,
    pub applied: bool,
}

impl View for TrackedChange {
    type V = TrackedChangeView;

    open spec fn view(&self) -> TrackedChangeView {
        TrackedChangeView { inner: self.inner@, applied: self.applied }
    }
}

/// What a list of changes says.
pub open spec fn changes_view(changes: Seq<TrackedChange>) -> Seq<TrackedChangeView> {
    changes.map_values(|change: TrackedChange| change@)
}

/// A change of our side that a change of theirs may conflict with.
#[allow(inconsistent_fields)]
#[derive(Clone, Copy, Debug, Eq, PartialEq, Structural)]
pub enum PossibleConflict {
    /// Our side has a tree where theirs has something else.
    TreeToNonTree { change_idx: Option<usize> },
    /// Our side has something else where theirs has a tree.
    NonTreeToTree { change_idx: Option<usize> },
    /// Both sides change the same place.
    Match { change_idx: usize },
}

impl PossibleConflict {
    /// The change of our side, if there is one in particular.
    pub open spec fn index(self) -> Option<usize> {
        match self {
            PossibleConflict::TreeToNonTree { change_idx } => change_idx,
            PossibleConflict::NonTreeToTree { change_idx } => change_idx,
            PossibleConflict::Match { change_idx } => Some(change_idx),
        }
    }

    /// The change of our side, if there is one in particular.
    pub fn change_idx(&self) -> (index: Option<usize>)
        ensures
            index == self.index(),
    {
        match self {
            PossibleConflict::TreeToNonTree { change_idx } => *change_idx,
            PossibleConflict::NonTreeToTree { change_idx } => *change_idx,
            PossibleConflict::Match { change_idx } => Some(*change_idx),
        }
    }
}

/// Whether a conflict is about a change in a list.
pub open spec fn is_within(conflict: Option<PossibleConflict>, changes: nat) -> bool {
    conflict matches Some(conflict) ==> (conflict.index() matches Some(index) ==> index < changes)
}

/// How a change of our side gives way.
#[derive(Clone, Copy, Debug, Eq, PartialEq, Structural)]
pub enum MatchKind {
    /// A tree is supposed to be superseded by something else.
    EraseTree,
    /// A leaf node is superseded by a tree.
    EraseLeaf,
}

/// Whether the changes of a side have to be found out: not if its tree is the base.
pub fn needs_diff(base_tree: &ObjectId, side_tree: &ObjectId) -> (needs: bool)
    ensures
        needs == (base_tree@ != side_tree@),
{
    !base_tree.same(side_tree)
}

/// Where a conflict with a change of theirs is looked for first: where the change was moved to by a
/// rewrite of our side, if it was, and where it begins otherwise.
pub fn first_location(theirs: &Change, rewritten_location: &Option<(Vec<u8>, usize)>) -> (location: Vec<
    u8,
>)
    ensures
        location@ == (match rewritten_location {
            Some((location, _)) => location@,
            None => theirs@.source_location(),
        }),
{
    match rewritten_location {
        Some((location, _)) => slice_to_vec(location.as_slice()),
        None => slice_to_vec(theirs.source_location()),
    }
}

/// Where a conflict is looked for second, if nothing was found first: where a rewrite leads to.
pub fn second_location(theirs: &Change, first: Option<PossibleConflict>) -> (location: Option<Vec<u8>>)
    ensures
        match location {
            Some(location) => first is None && theirs@.other_location() == Some(location@),
            None => first is Some || theirs@.other_location() is None,
        },
{
    if first.is_some() {
        return None;
    }
    match theirs.other_location() {
        Some(location) => Some(slice_to_vec(location)),
        None => None,
    }
}

/// The change of our side that a change of theirs may conflict with: what was found first, or, for a
/// rewrite that leads elsewhere, a rewrite that was found there.
pub open spec fn candidate(
    theirs: ChangeView,
    first: Option<PossibleConflict>,
    second: Option<PossibleConflict>,
    ours: Seq<TrackedChangeView>,
) -> Option<PossibleConflict> {
    match first {
        Some(conflict) => Some(conflict),
        None => match second {
            Some(conflict) => if theirs.other_location() is Some && (conflict.index() matches Some(
                index,
            ) && ours[index as int].inner is Rewrite) {
                Some(conflict)
            } else {
                None
            },
            None => None,
        },
    }
}

/// What comes of matching a change of theirs: the conflict that remains, and our changes.
pub open spec fn matched(
    theirs: ChangeView,
    needs_tree_insertion: Option<Option<usize>>,
    first: Option<PossibleConflict>,
    second: Option<PossibleConflict>,
    ours: Seq<TrackedChangeView>,
) -> (Option<PossibleConflict>, Seq<TrackedChangeView>) {
    match candidate(theirs, first, second, ours) {
        None => (None, ours),
        Some(conflict) => match conflict.index() {
            None => (Some(conflict), ours),
            Some(index) => if needs_tree_insertion == Some(Some(index)) {
                (None, ours)
            } else if ours[index as int].inner.equals(theirs) {
                (
                    None,
                    if theirs.removes_source() {
                        ours.update(
                            index as int,
                            TrackedChangeView { applied: true, ..ours[index as int] },
                        )
                    } else {
                        ours
                    },
                )
            } else if ours[index as int].applied && ours[index as int].inner is Deletion {
                (None, ours)
            } else {
                (Some(conflict), ours)
            },
        },
    }
}

/// Finds out which change of our side a change of theirs conflicts with, given what was found at the
/// two locations where conflicts are looked for. The same change on both sides is no conflict, and
/// counts as applied from then on if it removes its source, which must not be done twice. A change that
/// is to be ignored is no conflict either, nor is a deletion that was applied.
pub fn matching(
    theirs: &Change,
    needs_tree_insertion: Option<Option<usize>>,
    first: Option<PossibleConflict>,
    second: Option<PossibleConflict>,
    our_changes: &mut Vec<TrackedChange>,
) -> (conflict: Option<PossibleConflict>)
    requires
        is_within(first, old(our_changes)@.len()),
        is_within(second, old(our_changes)@.len()),
    ensures
        (conflict, changes_view(final(our_changes)@)) == matched(
            theirs@,
            needs_tree_insertion,
            first,
            second,
            changes_view(old(our_changes)@),
        ),
{
    let ghost ours = changes_view(our_changes@);
    let found = match first {
        Some(conflict) => conflict,
        None => match second {
            Some(conflict) => match conflict.change_idx() {
                Some(index) => {
                    assert(ours[index as int] == our_changes@[index as int]@);
                    if theirs.other_location().is_some() && our_changes[index].inner.is_rewrite() {
                        conflict
                    } else {
                        return None;
                    }
                },
                None => return None,
            },
            None => return None,
        },
    };
    let index: usize = match found.change_idx() {
        None => return Some(found),
        Some(index) => index,
    };
    assert(ours[index as int] == our_changes@[index as int]@);
    if let Some(Some(ignored)) = needs_tree_insertion {
        if ignored == index {
            return None;
        }
    }
    if our_changes[index].inner.same(theirs) {
        if theirs.is_deletion() || theirs.is_rewrite() {
            our_changes[index].applied = true;
            assert(changes_view(our_changes@) =~= ours.update(
                index as int,
                TrackedChangeView { applied: true, ..ours[index as int] },
            ));
        }
        return None;
    }
    if our_changes[index].applied && our_changes[index].inner.is_deletion() {
        return None;
    }
    Some(found)
}

/// The change of our side that gives way in a conflict, and how.
pub open spec fn paired(conflict: PossibleConflict, ours: Seq<TrackedChangeView>) -> (
    Option<usize>,
    Option<MatchKind>,
) {
    match conflict {
        PossibleConflict::TreeToNonTree { change_idx: Some(index) } => if ours[index as int].inner is Modification {
            (None, None)
        } else {
            (Some(index), Some(MatchKind::EraseTree))
        },
        PossibleConflict::TreeToNonTree { change_idx: None } => (None, None),
        PossibleConflict::NonTreeToTree { change_idx } => (change_idx, Some(MatchKind::EraseLeaf)),
        PossibleConflict::Match { change_idx } => (Some(change_idx), None),
    }
}

/// The change of our side that gives way in a conflict, and how.
pub fn pair(candidate: PossibleConflict, our_changes: &Vec<TrackedChange>) -> (pair: (
    Option<usize>,
    Option<MatchKind>,
))
    requires
        is_within(Some(candidate), our_changes@.len()),
    ensures
        pair == paired(candidate, changes_view(our_changes@)),
{
    match candidate {
        PossibleConflict::TreeToNonTree { change_idx } => match change_idx {
            Some(index) => {
                assert(changes_view(our_changes@)[index as int] == our_changes@[index as int]@);
                match &our_changes[index].inner {
                    Change::Deletion { .. } | Change::Addition { .. } | Change::Rewrite { .. } => (
                        Some(index),
                        Some(MatchKind::EraseTree),
                    ),
                    Change::Modification { .. } => (None, None),
                }
            },
            None => (None, None),
        },
        PossibleConflict::NonTreeToTree { change_idx } => (change_idx, Some(MatchKind::EraseLeaf)),
        PossibleConflict::Match { change_idx } => (Some(change_idx), None),
    }
}

/// Apart from one whose similarity is not a number, each change is the same as itself, and being the same goes both
/// ways.
pub proof fn law_being_the_same_goes_both_ways(left: ChangeView, right: ChangeView)
    ensures
        left.equals(right) ==> right.equals(left),
        (left.stats() matches Some(stats) ==> magnitude(stats.similarity) <= 0x7f80_0000)
            ==> left.equals(left),
{
}

/// The same change on both sides is never a conflict, and counts as applied if it removes its source,
/// unless it is to be ignored.
pub proof fn law_same_changes_do_not_conflict(
    theirs: ChangeView,
    needs_tree_insertion: Option<Option<usize>>,
    first: Option<PossibleConflict>,
    second: Option<PossibleConflict>,
    ours: Seq<TrackedChangeView>,
    index: usize,
)
    requires
        index < ours.len(),
        ours[index as int].inner.equals(theirs),
        candidate(theirs, first, second, ours) matches Some(found) && found.index() == Some(index),
    ensures
        ({
            let (conflict, after) = matched(theirs, needs_tree_insertion, first, second, ours);
            &&& conflict is None
            &&& theirs.removes_source() && needs_tree_insertion != Some(Some(index))
                ==> after[index as int].applied
        }),
{
}

/// Matching never takes back that a change was applied, and leaves the changes themselves alone.
pub proof fn law_matching_only_marks(
    theirs: ChangeView,
    needs_tree_insertion: Option<Option<usize>>,
    first: Option<PossibleConflict>,
    second: Option<PossibleConflict>,
    ours: Seq<TrackedChangeView>,
    place: int,
)
    requires
        is_within(first, ours.len()),
        is_within(second, ours.len()),
        0 <= place < ours.len(),
    ensures
        ({
            let after = matched(theirs, needs_tree_insertion, first, second, ours).1;
            &&& after.len() == ours.len()
            &&& after[place].inner == ours[place].inner
            &&& ours[place].applied ==> after[place].applied
        }),
{
}

/// What is matched again after it was found to be the same on both sides is found to be so again, and
/// nothing more is marked.
pub proof fn law_matching_the_same_change_twice_changes_nothing_more(
    theirs: ChangeView,
    needs_tree_insertion: Option<Option<usize>>,
    first: Option<PossibleConflict>,
    second: Option<PossibleConflict>,
    ours: Seq<TrackedChangeView>,
)
    requires
        is_within(first, ours.len()),
        is_within(second, ours.len()),
    ensures
        ({
            let (conflict, after) = matched(theirs, needs_tree_insertion, first, second, ours);
            matched(theirs, needs_tree_insertion, first, second, after) == (conflict, after)
        }),
{
    let (conflict, after) = matched(theirs, needs_tree_insertion, first, second, ours);
    if let Some(found) = candidate(theirs, first, second, ours) {
        if let Some(index) = found.index() {
            assert(after[index as int].inner == ours[index as int].inner);
            assert(matched(theirs, needs_tree_insertion, first, second, after).1 =~= after);
        }
    }
}

} // verus!
