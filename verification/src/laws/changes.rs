//! Laws on the paths that a commit changes.

use vstd::prelude::*;

use crate::changes::changed_paths;
use crate::changes::described;
use crate::changes::insertions;
use crate::changes::removals;
use crate::changes::wrapped_parent;
use crate::changes::ChangeKind;
use crate::changes::PathChangeView;
use crate::changes::TreeChange;
use crate::oid::EntryKind;

verus! {

/// Where a difference is in the commit.
pub open spec fn place_in_commit(change: TreeChange) -> Seq<u8> {
    match change {
        TreeChange::Addition { location, .. } => location@,
        TreeChange::Deletion { location, .. } => location@,
        TreeChange::Modification { location, .. } => location@,
        TreeChange::Rewrite { location, .. } => location@,
    }
}

/// The path that is shown for a difference is its place in the commit, with the line counts that were
/// found; only a rewrite has a source, which is where it came from.
pub proof fn law_paths_are_places_in_the_commit(
    change: TreeChange,
    lines: Option<(u32, u32)>,
    shown: PathChangeView,
)
    requires
        described(change, lines) == Some(shown),
    ensures
        shown.path == place_in_commit(change),
        shown.lines == lines,
        change matches TreeChange::Rewrite { source_location, .. } ==> shown.source == Some(
            source_location@,
        ),
        !(change is Rewrite) ==> shown.source is None,
{
}

/// What a difference is shown as.
pub proof fn law_kinds_of_changes(
    change: TreeChange,
    lines: Option<(u32, u32)>,
    shown: PathChangeView,
)
    requires
        described(change, lines) == Some(shown),
    ensures
        shown.kind == ChangeKind::Added <==> change is Addition,
        shown.kind == ChangeKind::Deleted <==> change is Deletion,
        shown.kind == ChangeKind::Copied <==> (change matches TreeChange::Rewrite { copy, .. } && copy),
        shown.kind == ChangeKind::Renamed <==> (change matches TreeChange::Rewrite { copy, .. } && !copy),
        shown.kind == ChangeKind::Modified <==> (change matches TreeChange::Modification {
            previous_entry_mode,
            entry_mode,
            ..
        } && previous_entry_mode.kind_spec() == entry_mode.kind_spec()),
{
}

/// A difference isn't shown if it adds or deletes a directory, modifies one and leaves it one, or moves
/// something to or from a directory. All others are shown.
pub proof fn law_directories_are_not_shown(change: TreeChange, lines: Option<(u32, u32)>)
    ensures
        described(change, lines) is None <==> (match change {
            TreeChange::Addition { entry_mode, .. } => entry_mode.kind_spec() == EntryKind::Tree,
            TreeChange::Deletion { entry_mode, .. } => entry_mode.kind_spec() == EntryKind::Tree,
            TreeChange::Modification { previous_entry_mode, entry_mode, .. } =>
                previous_entry_mode.kind_spec() == EntryKind::Tree && entry_mode.kind_spec()
                    == EntryKind::Tree,
            TreeChange::Rewrite { source_entry_mode, entry_mode, .. } =>
                source_entry_mode.kind_spec() == EntryKind::Tree || entry_mode.kind_spec()
                    == EntryKind::Tree,
        }),
{
}

/// Each difference that is shown is shown once, after those before it, with its own line counts, and
/// the others leave no trace.
pub proof fn law_differences_are_shown_in_turn(
    list: Seq<(TreeChange, Option<(u32, u32)>)>,
    change: TreeChange,
    lines: Option<(u32, u32)>,
)
    ensures
        changed_paths(Seq::empty()).len() == 0,
        match described(change, lines) {
            None => changed_paths(list.push((change, lines))) == changed_paths(list),
            Some(shown) => changed_paths(list.push((change, lines))).drop_last() == changed_paths(
                list,
            ) && changed_paths(list.push((change, lines))).last().path == place_in_commit(change)
                && changed_paths(list.push((change, lines))).last().lines == lines
                && changed_paths(list.push((change, lines))).last() == shown,
        },
{
    let more = list.push((change, lines));
    assert(more.drop_last() =~= list);
    if let Some(shown) = described(change, lines) {
        assert(changed_paths(more).drop_last() =~= changed_paths(list));
    }
}

/// Lines are summed up over the paths that have line counts.
pub proof fn law_lines_are_summed_up(paths: Seq<PathChangeView>, path: PathChangeView)
    ensures
        insertions(Seq::empty()) == 0,
        removals(Seq::empty()) == 0,
        path.lines is None ==> insertions(paths.push(path)) == insertions(paths) && removals(
            paths.push(path),
        ) == removals(paths),
        path.lines matches Some((inserted, removed)) ==> insertions(paths.push(path)) == insertions(
            paths,
        ) + inserted && removals(paths.push(path)) == removals(paths) + removed,
{
    assert(paths.push(path).drop_last() =~= paths);
}

/// A parent that there is, is the one that is compared to; others are counted from the first again.
pub proof fn law_requested_parents_are_compared_to(requested: usize, parents: nat)
    ensures
        parents == 0 ==> wrapped_parent(requested, parents) == 0,
        requested < parents ==> wrapped_parent(requested, parents) == requested,
        parents > 0 && requested >= parents ==> wrapped_parent(requested, parents) == wrapped_parent(
            (requested - parents) as usize,
            parents,
        ),
{
    if requested < parents {
        assert(requested as int % parents as int == requested) by (nonlinear_arith)
            requires
                0 <= requested < parents,
        ;
    }
    if parents > 0 && requested >= parents {
        assert((requested - parents) % parents as int == requested as int % parents as int)
            by (nonlinear_arith)
            requires
                parents > 0,
        ;
    }
}

} // verus!
