//! Laws on matching the changes of two sides of a merge.

use vstd::prelude::*;

use crate::merge::equal_numbers;
use crate::merge::equal_stats;
use crate::merge::matched;
use crate::merge::paired;
use crate::merge::ChangeView;
use crate::merge::LineStats;
use crate::merge::MatchKind;
use crate::merge::PossibleConflict;
use crate::merge::Relation;
use crate::merge::TrackedChangeView;
use crate::oid::EntryMode;

verus! {

/// Whether a conflict is about the change with the given number.
pub open spec fn is_about(conflict: PossibleConflict, index: usize) -> bool {
    ||| conflict == PossibleConflict::Match { change_idx: index }
    ||| conflict == (PossibleConflict::TreeToNonTree { change_idx: Some(index) })
    ||| conflict == (PossibleConflict::NonTreeToTree { change_idx: Some(index) })
}

/// Whether a change of theirs is a rewrite that leads elsewhere.
pub open spec fn leads_elsewhere(change: ChangeView) -> bool {
    change matches ChangeView::Rewrite { source_location, location, .. } && source_location != location
}

/// Whether a conflict that was found is considered: what was found first always is, and what was found
/// second only if nothing was found first, if theirs is a rewrite that leads elsewhere, and if the change
/// of ours that it is about is a rewrite, too.
pub open spec fn is_considered(
    theirs: ChangeView,
    first: Option<PossibleConflict>,
    second: Option<PossibleConflict>,
    ours: Seq<TrackedChangeView>,
    conflict: PossibleConflict,
    index: usize,
) -> bool {
    &&& index < ours.len()
    &&& is_about(conflict, index)
    &&& {
        ||| first == Some(conflict)
        ||| (first is None && second == Some(conflict) && leads_elsewhere(theirs)
            && ours[index as int].inner is Rewrite)
    }
}

/// A conflict remains if it is about a change of ours that is not to be ignored, that differs from
/// theirs, and that is not a deletion which was applied. Nothing is marked then.
pub proof fn law_different_changes_conflict(
    theirs: ChangeView,
    needs_tree_insertion: Option<Option<usize>>,
    first: Option<PossibleConflict>,
    second: Option<PossibleConflict>,
    ours: Seq<TrackedChangeView>,
    conflict: PossibleConflict,
    index: usize,
)
    requires
        is_considered(theirs, first, second, ours, conflict, index),
        needs_tree_insertion != Some(Some(index)),
        !ours[index as int].inner.equals(theirs),
        !(ours[index as int].applied && ours[index as int].inner is Deletion),
    ensures
        matched(theirs, needs_tree_insertion, first, second, ours) == (Some(conflict), ours),
{
}

/// A deletion of ours that was not applied yet conflicts with each other change of theirs, and so does
/// anything else of ours that differs, applied or not.
pub proof fn law_pending_deletions_conflict(
    theirs: ChangeView,
    first: Option<PossibleConflict>,
    second: Option<PossibleConflict>,
    ours: Seq<TrackedChangeView>,
    conflict: PossibleConflict,
    index: usize,
)
    requires
        is_considered(theirs, first, second, ours, conflict, index),
        !ours[index as int].inner.equals(theirs),
    ensures
        ours[index as int].inner is Deletion && !ours[index as int].applied ==> matched(
            theirs,
            None,
            first,
            second,
            ours,
        ) == (Some(conflict), ours),
        !(ours[index as int].inner is Deletion) ==> matched(theirs, Some(None), first, second, ours)
            == (Some(conflict), ours),
{
}

/// There is no conflict with a change that is to be ignored, nor with a deletion that was applied. Nothing
/// is marked then.
pub proof fn law_changes_out_of_the_way(
    theirs: ChangeView,
    needs_tree_insertion: Option<Option<usize>>,
    first: Option<PossibleConflict>,
    second: Option<PossibleConflict>,
    ours: Seq<TrackedChangeView>,
    conflict: PossibleConflict,
    index: usize,
)
    requires
        is_considered(theirs, first, second, ours, conflict, index),
        needs_tree_insertion == Some(Some(index)) || (ours[index as int].applied
            && ours[index as int].inner is Deletion && !ours[index as int].inner.equals(theirs)),
    ensures
        matched(theirs, needs_tree_insertion, first, second, ours) == (
            None::<PossibleConflict>,
            ours,
        ),
{
}

/// There is no conflict with the same change, and exactly that one is marked as applied if it is a deletion
/// or a rewrite; nothing else changes.
pub proof fn law_same_changes_are_applied_once(
    theirs: ChangeView,
    needs_tree_insertion: Option<Option<usize>>,
    first: Option<PossibleConflict>,
    second: Option<PossibleConflict>,
    ours: Seq<TrackedChangeView>,
    conflict: PossibleConflict,
    index: usize,
)
    requires
        is_considered(theirs, first, second, ours, conflict, index),
        needs_tree_insertion != Some(Some(index)),
        ours[index as int].inner.equals(theirs),
    ensures
        matched(theirs, needs_tree_insertion, first, second, ours).0 is None,
        theirs is Addition || theirs is Modification ==> matched(
            theirs,
            needs_tree_insertion,
            first,
            second,
            ours,
        ).1 == ours,
        theirs is Deletion || theirs is Rewrite ==> matched(
            theirs,
            needs_tree_insertion,
            first,
            second,
            ours,
        ).1 == ours.update(
            index as int,
            TrackedChangeView { inner: ours[index as int].inner, applied: true },
        ),
{
}

/// A conflict without a change of ours in particular remains if it was found first, and is of no account
/// if it was found second. Without a conflict there is none.
pub proof fn law_conflicts_without_a_change(
    theirs: ChangeView,
    needs_tree_insertion: Option<Option<usize>>,
    second: Option<PossibleConflict>,
    ours: Seq<TrackedChangeView>,
    conflict: PossibleConflict,
)
    requires
        conflict == (PossibleConflict::TreeToNonTree { change_idx: None }) || conflict == (
        PossibleConflict::NonTreeToTree { change_idx: None }),
    ensures
        matched(theirs, needs_tree_insertion, Some(conflict), second, ours) == (Some(conflict), ours),
        matched(theirs, needs_tree_insertion, None, Some(conflict), ours) == (
            None::<PossibleConflict>,
            ours,
        ),
        matched(theirs, needs_tree_insertion, None, None, ours) == (None::<PossibleConflict>, ours),
{
}

/// What was found second is of no account unless theirs is a rewrite that leads elsewhere and ours is a
/// rewrite.
pub proof fn law_only_rewrites_conflict_where_they_lead(
    theirs: ChangeView,
    needs_tree_insertion: Option<Option<usize>>,
    ours: Seq<TrackedChangeView>,
    conflict: PossibleConflict,
    index: usize,
)
    requires
        index < ours.len(),
        is_about(conflict, index),
        !leads_elsewhere(theirs) || !(ours[index as int].inner is Rewrite),
    ensures
        matched(theirs, needs_tree_insertion, None, Some(conflict), ours) == (
            None::<PossibleConflict>,
            ours,
        ),
{
}

/// A tree of ours gives way if our change of it is anything but a modification, a leaf of ours always does,
/// and nothing gives way where both sides change the same place.
pub proof fn law_what_gives_way(ours: Seq<TrackedChangeView>, index: usize)
    requires
        index < ours.len(),
    ensures
        ours[index as int].inner is Modification ==> paired(
            PossibleConflict::TreeToNonTree { change_idx: Some(index) },
            ours,
        ) == (None::<usize>, None::<MatchKind>),
        !(ours[index as int].inner is Modification) ==> paired(
            PossibleConflict::TreeToNonTree { change_idx: Some(index) },
            ours,
        ) == (Some(index), Some(MatchKind::EraseTree)),
        paired(PossibleConflict::TreeToNonTree { change_idx: None }, ours) == (
            None::<usize>,
            None::<MatchKind>,
        ),
        paired(PossibleConflict::NonTreeToTree { change_idx: Some(index) }, ours) == (
            Some(index),
            Some(MatchKind::EraseLeaf),
        ),
        paired(PossibleConflict::NonTreeToTree { change_idx: None }, ours) == (
            None::<usize>,
            Some(MatchKind::EraseLeaf),
        ),
        paired(PossibleConflict::Match { change_idx: index }, ours) == (
            Some(index),
            None::<MatchKind>,
        ),
{
}

/// A change begins where it is, and a rewrite where it came from. Only a rewrite leads elsewhere, and only
/// if the two differ.
pub proof fn law_where_changes_begin(
    location: Seq<u8>,
    source_location: Seq<u8>,
    relation: Option<Relation>,
    mode: EntryMode,
    id: Seq<u8>,
    diff: Option<LineStats>,
    copy: bool,
)
    ensures
        ({
            let addition = ChangeView::Addition { location, relation, entry_mode: mode, id };
            let deletion = ChangeView::Deletion { location, relation, entry_mode: mode, id };
            let modification = ChangeView::Modification {
                location,
                previous_entry_mode: mode,
                previous_id: id,
                entry_mode: mode,
                id,
            };
            let rewrite = ChangeView::Rewrite {
                source_location,
                source_relation: relation,
                source_entry_mode: mode,
                source_id: id,
                diff,
                entry_mode: mode,
                id,
                location,
                relation,
                copy,
            };
            &&& addition.source_location() == location && addition.other_location() is None
            &&& deletion.source_location() == location && deletion.other_location() is None
            &&& modification.source_location() == location && modification.other_location() is None
            &&& rewrite.source_location() == source_location
            &&& source_location == location ==> rewrite.other_location() is None
            &&& source_location != location ==> rewrite.other_location() == Some(location)
        }),
{
}

/// Changes are the same only if they are of one kind and all that they say is the same.
pub proof fn law_same_changes_say_the_same(left: ChangeView, right: ChangeView)
    requires
        left.equals(right),
    ensures
        match (left, right) {
            (
                ChangeView::Addition { location, relation, entry_mode, id },
                ChangeView::Addition { location: l, relation: r, entry_mode: m, id: i },
            ) => location == l && relation == r && entry_mode == m && id == i,
            (
                ChangeView::Deletion { location, relation, entry_mode, id },
                ChangeView::Deletion { location: l, relation: r, entry_mode: m, id: i },
            ) => location == l && relation == r && entry_mode == m && id == i,
            (
                ChangeView::Modification {
                    location,
                    previous_entry_mode,
                    previous_id,
                    entry_mode,
                    id,
                },
                ChangeView::Modification {
                    location: l,
                    previous_entry_mode: p,
                    previous_id: q,
                    entry_mode: m,
                    id: i,
                },
            ) => location == l && previous_entry_mode == p && previous_id == q && entry_mode == m
                && id == i,
            (
                ChangeView::Rewrite {
                    source_location,
                    source_relation,
                    source_entry_mode,
                    source_id,
                    diff,
                    entry_mode,
                    id,
                    location,
                    relation,
                    copy,
                },
                ChangeView::Rewrite {
                    source_location: sl,
                    source_relation: sr,
                    source_entry_mode: sm,
                    source_id: si,
                    diff: d,
                    entry_mode: m,
                    id: i,
                    location: l,
                    relation: r,
                    copy: c,
                },
            ) => source_location == sl && source_relation == sr && source_entry_mode == sm && source_id
                == si && equal_stats(diff, d) && entry_mode == m && id == i && location == l
                && relation == r && copy == c,
            _ => false,
        },
{
}

/// A change with usable similarity is the same as itself; without line counts on both sides or with the
/// same ones, similarity included, the amount of change is the same.
pub proof fn law_changes_are_the_same_as_themselves(change: ChangeView, stats: LineStats, other: LineStats)
    ensures
        !(change is Rewrite) ==> change.equals(change),
        change matches ChangeView::Rewrite { diff, .. } && diff is None ==> change.equals(change),
        change matches ChangeView::Rewrite { diff, .. } && diff == Some(stats) && equal_numbers(
            stats.similarity,
            stats.similarity,
        ) ==> change.equals(change),
        equal_stats(None, None),
        !equal_stats(Some(stats), None),
        !equal_stats(None, Some(stats)),
        equal_stats(Some(stats), Some(other)) ==> stats.removals == other.removals
            && stats.insertions == other.insertions && stats.before == other.before && stats.after
            == other.after && equal_numbers(stats.similarity, other.similarity),
{
}

/// Numbers of single precision are equal as such numbers are: those with all bits of the exponent set and
/// any of the mantissa equal nothing, others equal those with the same bits, and the two zeros each
/// other.
pub proof fn law_numbers_are_compared_as_such(left: u32, right: u32)
    ensures
        left / 0x80_0000 % 0x100 == 0xff && left % 0x80_0000 != 0 ==> !equal_numbers(left, right)
            && !equal_numbers(right, left),
        !(left / 0x80_0000 % 0x100 == 0xff && left % 0x80_0000 != 0) ==> equal_numbers(left, left),
        equal_numbers(0, 0x8000_0000),
        equal_numbers(0x8000_0000, 0),
        left != right && (left % 0x8000_0000 != 0 || right % 0x8000_0000 != 0) ==> !equal_numbers(
            left,
            right,
        ),
{
}

} // verus!
