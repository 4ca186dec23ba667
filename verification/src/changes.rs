//! The paths that a commit changes against one of its parents.

use vstd::prelude::*;
use vstd::slice::slice_to_vec;

use crate::bytes::append;
use crate::bytes::ascii;
use crate::bytes::literal;
use crate::bytes::view_option;
use crate::oid::EntryKind;
use crate::oid::EntryMode;
use crate::oid::ObjectId;

verus! {

/// What happened to a path.
#[derive(Clone, Copy, Debug, Eq, PartialEq, Structural)]
pub enum ChangeKind {
    Added,
    Deleted,
    Modified,
    /// It is of another kind than before.
    TypeChanged,
    Renamed,
    Copied,
}

/// A difference between two trees.
pub enum TreeChange {
    Addition { entry_mode: EntryMode, location: Vec<u8> },
    Deletion { entry_mode: EntryMode, location: Vec<u8> },
    Modification { previous_entry_mode: EntryMode, entry_mode: EntryMode, location: Vec<u8> },
    Rewrite {
        source_location: Vec<u8>,
        source_entry_mode: EntryMode,
        entry_mode: EntryMode,
        location: Vec<u8>,
        copy: bool,
    },
}

/// A path that a commit changes.
#[derive(Clone, Debug, Eq, PartialEq)]
pub struct PathChange {
    /// What happened to it.
    pub kind: ChangeKind,
    /// Where it came from, if it was renamed or copied.
    pub source: Option<Vec<u8>>,
    /// The path itself.
    pub path: Vec<u8>,
    /// How many lines were inserted and removed, if it has lines.
    pub lines: Option<(u32, u32)>,
}

/// What a [`PathChange`] says.
#[verifier::ext_equal]
pub struct PathChangeView {
    pub kind: ChangeKind,
    pub source: Option<Seq<u8>>,
    pub path: Seq<u8>,
    pub lines: Option<(u32, u32)>,
}

impl View for PathChange {
    type V = PathChangeView;

    open spec fn view(&self) -> PathChangeView {
        PathChangeView {
            kind: self.kind,
            source: view_option(self.source),
            path: self.path@,
            lines: self.lines,
        }
    }
}

/// The parent that a merge is compared to.
#[derive(Clone, Debug, Eq, PartialEq)]
pub struct ComparedParent {
    /// Which one it is.
    pub index: usize,
    /// How many there are.
    pub total: usize,
    /// Its id.
    pub id: ObjectId,
}

/// The paths that a commit changes.
#[derive(Clone, Debug, Eq, PartialEq)]
pub struct Changes {
    /// The parent that a merge is compared to, or nothing if there is no choice.
    pub parent: Option<ComparedParent>,
    /// The changed paths.
    pub paths: Vec<PathChange>,
    /// How many lines were inserted in all paths.
    pub lines_added: u64,
    /// How many lines were removed in all paths.
    pub lines_removed: u64,
}

impl Default for Changes {
    fn default() -> (changes: Self)
        ensures
            changes.parent is None,
            changes.paths@.len() == 0,
            changes.lines_added == 0,
            changes.lines_removed == 0,
    {
        Changes { parent: None, paths: Vec::new(), lines_added: 0, lines_removed: 0 }
    }
}

/// The changed paths in a list.
pub open spec fn path_views(paths: Seq<PathChange>) -> Seq<PathChangeView> {
    paths.map_values(|path: PathChange| path@)
}

/// What a difference means for its path, if it concerns more than directories.
pub open spec fn described(change: TreeChange, lines: Option<(u32, u32)>) -> Option<
    PathChangeView,
> {
    match change {
        TreeChange::Addition { entry_mode, location } => if entry_mode.kind_spec()
            == EntryKind::Tree {
            None
        } else {
            Some(PathChangeView { kind: ChangeKind::Added, source: None, path: location@, lines })
        },
        TreeChange::Deletion { entry_mode, location } => if entry_mode.kind_spec()
            == EntryKind::Tree {
            None
        } else {
            Some(PathChangeView { kind: ChangeKind::Deleted, source: None, path: location@, lines })
        },
        TreeChange::Modification { previous_entry_mode, entry_mode, location } => if entry_mode.kind_spec()
            == EntryKind::Tree && previous_entry_mode.kind_spec() == EntryKind::Tree {
            None
        } else {
            Some(
                PathChangeView {
                    kind: if previous_entry_mode.kind_spec() == entry_mode.kind_spec() {
                        ChangeKind::Modified
                    } else {
                        ChangeKind::TypeChanged
                    },
                    source: None,
                    path: location@,
                    lines,
                },
            )
        },
        TreeChange::Rewrite { source_location, source_entry_mode, entry_mode, location, copy } =>
        if entry_mode.kind_spec() == EntryKind::Tree || source_entry_mode.kind_spec()
            == EntryKind::Tree {
            None
        } else {
            Some(
                PathChangeView {
                    kind: if copy {
                        ChangeKind::Copied
                    } else {
                        ChangeKind::Renamed
                    },
                    source: Some(source_location@),
                    path: location@,
                    lines,
                },
            )
        },
    }
}

/// What a difference means for its path before its lines are counted, or nothing if it concerns
/// only directories, whose lines need not be counted.
pub fn describe(change: &TreeChange) -> (path: Option<PathChange>)
    ensures
        match path {
            Some(path) => described(*change, None) == Some(path@),
            None => described(*change, None) is None,
        },
        path matches Some(path) ==> path.lines is None && (match change {
            TreeChange::Addition { location, .. } => path.kind == ChangeKind::Added && path.path@
                == location@ && path.source is None,
            TreeChange::Deletion { location, .. } => path.kind == ChangeKind::Deleted && path.path@
                == location@ && path.source is None,
            TreeChange::Modification { location, .. } => (path.kind == ChangeKind::Modified
                || path.kind == ChangeKind::TypeChanged) && path.path@ == location@
                && path.source is None,
            TreeChange::Rewrite { source_location, location, copy, .. } => path.kind == (if *copy {
                ChangeKind::Copied
            } else {
                ChangeKind::Renamed
            }) && path.path@ == location@ && (path.source matches Some(source) && source@
                == source_location@),
        }),
{
    let (kind, source, path, is_tree) = match change {
        TreeChange::Addition { entry_mode, location } => (
            ChangeKind::Added,
            None,
            slice_to_vec(location.as_slice()),
            entry_mode.is_tree(),
        ),
        TreeChange::Deletion { entry_mode, location } => (
            ChangeKind::Deleted,
            None,
            slice_to_vec(location.as_slice()),
            entry_mode.is_tree(),
        ),
        TreeChange::Modification { previous_entry_mode, entry_mode, location } => (
            if previous_entry_mode.kind() == entry_mode.kind() {
                ChangeKind::Modified
            } else {
                ChangeKind::TypeChanged
            },
            None,
            slice_to_vec(location.as_slice()),
            previous_entry_mode.is_tree() && entry_mode.is_tree(),
        ),
        TreeChange::Rewrite { source_location, source_entry_mode, entry_mode, location, copy } => (
            if *copy {
                ChangeKind::Copied
            } else {
                ChangeKind::Renamed
            },
            Some(slice_to_vec(source_location.as_slice())),
            slice_to_vec(location.as_slice()),
            source_entry_mode.is_tree() || entry_mode.is_tree(),
        ),
    };
    if is_tree {
        return None;
    }
    Some(PathChange { kind, source, path, lines: None })
}

/// The parent that is meant by a requested one, counted past the last one from the first again.
pub open spec fn wrapped_parent(requested: usize, parents: nat) -> int {
    if parents == 0 {
        0
    } else {
        requested as int % parents as int
    }
}

/// The parent to compare a commit to, by its position.
pub fn compared_parent(requested: usize, parents: usize) -> (index: usize)
    ensures
        index == wrapped_parent(requested, parents as nat),
        parents > 0 ==> index < parents,
{
    if parents == 0 {
        0
    } else {
        requested % parents
    }
}

/// The sum of the insertions in `paths`.
pub open spec fn insertions(paths: Seq<PathChangeView>) -> int
    decreases paths.len(),
{
    if paths.len() == 0 {
        0
    } else {
        insertions(paths.drop_last()) + match paths.last().lines {
            Some((inserted, _)) => inserted as int,
            None => 0,
        }
    }
}

/// The sum of the removals in `paths`.
pub open spec fn removals(paths: Seq<PathChangeView>) -> int
    decreases paths.len(),
{
    if paths.len() == 0 {
        0
    } else {
        removals(paths.drop_last()) + match paths.last().lines {
            Some((_, removed)) => removed as int,
            None => 0,
        }
    }
}

/// The paths that a list of differences changes, in its order.
pub open spec fn changed_paths(list: Seq<(TreeChange, Option<(u32, u32)>)>) -> Seq<PathChangeView>
    decreases list.len(),
{
    if list.len() == 0 {
        Seq::empty()
    } else {
        let earlier = changed_paths(list.drop_last());
        match described(list.last().0, list.last().1) {
            Some(path) => earlier.push(path),
            None => earlier,
        }
    }
}

impl Changes {
    /// The line counts are the sums over the paths.
    pub open spec fn wf(&self) -> bool {
        &&& self.lines_added == insertions(path_views(self.paths@))
        &&& self.lines_removed == removals(path_views(self.paths@))
    }

    /// Nothing changed yet, for a commit with the given parents compared to the requested one. Only
    /// a merge says which of its parents that is.
    pub fn start(parents: &Vec<ObjectId>, requested: usize) -> (changes: Changes)
        ensures
            changes.wf(),
            changes.paths@.len() == 0,
            parents@.len() <= 1 ==> changes.parent is None,
            parents@.len() > 1 ==> (changes.parent matches Some(parent) && parent.index
                == wrapped_parent(requested, parents@.len()) && parent.total == parents@.len()
                && parent.id@ == parents@[parent.index as int]@),
    {
        let index: usize = compared_parent(requested, parents.len());
        let parent = if parents.len() > 1 {
            Some(ComparedParent { index, total: parents.len(), id: parents[index].copy() })
        } else {
            None
        };
        Changes { parent, paths: Vec::new(), lines_added: 0, lines_removed: 0 }
    }

    /// Adds a changed path with its line counts.
    pub fn record(&mut self, path: PathChange, lines: Option<(u32, u32)>)
        requires
            old(self).wf(),
            lines matches Some((inserted, removed)) ==> old(self).lines_added + inserted
                <= u64::MAX && old(self).lines_removed + removed <= u64::MAX,
        ensures
            final(self).wf(),
            final(self).parent == old(self).parent,
            path_views(final(self).paths@) == path_views(old(self).paths@).push(
                PathChangeView { lines, ..path@ },
            ),
    {
        let ghost before = path_views(self.paths@);
        if let Some((inserted, removed)) = lines {
            self.lines_added = self.lines_added + inserted as u64;
            self.lines_removed = self.lines_removed + removed as u64;
        }
        let added = PathChange { kind: path.kind, source: path.source, path: path.path, lines };
        self.paths.push(added);
        assert(path_views(self.paths@) =~= before.push(added@));
        assert(path_views(self.paths@).drop_last() =~= before);
    }

    /// Whether there is anything to show.
    pub fn is_visible(&self) -> (visible: bool)
        ensures
            visible == (self.paths@.len() > 0),
    {
        self.paths.len() > 0
    }
}

proof fn lemma_sums_grow(list: Seq<(TreeChange, Option<(u32, u32)>)>, i: int)
    requires
        0 <= i <= list.len(),
    ensures
        insertions(changed_paths(list.take(i))) <= insertions(changed_paths(list)),
        removals(changed_paths(list.take(i))) <= removals(changed_paths(list)),
    decreases list.len() - i,
{
    if i < list.len() {
        lemma_sums_grow(list, i + 1);
        let more = list.take(i + 1);
        assert(more.drop_last() =~= list.take(i));
        let earlier = changed_paths(list.take(i));
        if let Some(path) = described(more.last().0, more.last().1) {
            assert(earlier.push(path).drop_last() =~= earlier);
        }
    } else {
        assert(list.take(i) =~= list);
    }
}

/// Whether a path is shown for a difference: at the place of the difference, with its line counts, and
/// with the place that it came from if it is a rewrite.
pub open spec fn shows(
    change: TreeChange,
    lines: Option<(u32, u32)>,
    shown: PathChangeView,
) -> bool {
    &&& shown.lines == lines
    &&& match change {
        TreeChange::Addition { location, .. } => shown.path == location@ && shown.source is None,
        TreeChange::Deletion { location, .. } => shown.path == location@ && shown.source is None,
        TreeChange::Modification { location, .. } => shown.path == location@ && shown.source is None,
        TreeChange::Rewrite { source_location, location, .. } => shown.path == location@
            && shown.source == Some(source_location@),
    }
}

/// Whether a path is shown for one of the differences.
pub open spec fn is_shown(
    list: Seq<(TreeChange, Option<(u32, u32)>)>,
    shown: PathChangeView,
) -> bool {
    exists|i: int| 0 <= i < list.len() && shows((#[trigger] list[i]).0, list[i].1, shown)
}

proof fn lemma_paths_show_differences(list: Seq<(TreeChange, Option<(u32, u32)>)>)
    ensures
        changed_paths(list).len() <= list.len(),
        forall|k: int|
            0 <= k < changed_paths(list).len() ==> is_shown(list, #[trigger] changed_paths(list)[k]),
    decreases list.len(),
{
    if list.len() > 0 {
        let earlier = list.drop_last();
        lemma_paths_show_differences(earlier);
        assert forall|k: int| 0 <= k < changed_paths(list).len() implies is_shown(
            list,
            #[trigger] changed_paths(list)[k],
        ) by {
            let shown = changed_paths(list)[k];
            if k < changed_paths(earlier).len() {
                assert(shown == changed_paths(earlier)[k]);
                let i = choose|i: int|
                    0 <= i < earlier.len() && shows((#[trigger] earlier[i]).0, earlier[i].1, shown);
                assert(list[i] == earlier[i]);
            } else {
                let last = list[list.len() - 1];
                assert(shows(last.0, last.1, shown));
            }
        }
    }
}

/// The changes of a commit with the given parents, from the differences between the trees of the
/// requested parent and of the commit with the line counts of each.
pub fn changes_of(
    parents: &Vec<ObjectId>,
    requested: usize,
    list: &Vec<(TreeChange, Option<(u32, u32)>)>,
) -> (changes: Changes)
    requires
        insertions(changed_paths(list@)) <= u64::MAX,
        removals(changed_paths(list@)) <= u64::MAX,
    ensures
        changes.wf(),
        path_views(changes.paths@) == changed_paths(list@),
        changes.paths@.len() <= list@.len(),
        forall|k: int|
            0 <= k < changes.paths@.len() ==> is_shown(list@, (#[trigger] changes.paths@[k])@),
        parents@.len() <= 1 ==> changes.parent is None,
        parents@.len() > 1 ==> (changes.parent matches Some(parent) && parent.index
            == wrapped_parent(requested, parents@.len()) && parent.total == parents@.len()
            && parent.id@ == parents@[parent.index as int]@),
{
    let mut changes = Changes::start(parents, requested);
    let ghost parent = changes.parent;
    let mut i: usize = 0;
    assert(path_views(changes.paths@) =~= changed_paths(list@.take(0)));
    while i < list.len()
        invariant
            i <= list.len(),
            changes.wf(),
            changes.parent == parent,
            path_views(changes.paths@) == changed_paths(list@.take(i as int)),
            insertions(changed_paths(list@)) <= u64::MAX,
            removals(changed_paths(list@)) <= u64::MAX,
        decreases list.len() - i,
    {
        proof {
            assert(list@.take(i + 1).drop_last() =~= list@.take(i as int));
            assert(list@.take(i + 1).last() == list@[i as int]);
        }
        let lines = list[i].1;
        if let Some(path) = describe(&list[i].0) {
            proof {
                let whole = changed_paths(list@.take(i + 1));
                assert(whole == changed_paths(list@.take(i as int)).push(
                    PathChangeView { lines, ..path@ },
                ));
                assert(whole.drop_last() =~= changed_paths(list@.take(i as int)));
                lemma_sums_grow(list@, i + 1);
            }
            changes.record(path, lines);
        }
        i += 1;
    }
    assert(list@.take(i as int) =~= list@);
    proof {
        lemma_paths_show_differences(list@);
        assert forall|k: int| 0 <= k < changes.paths@.len() implies is_shown(
            list@,
            (#[trigger] changes.paths@[k])@,
        ) by {
            assert(changed_paths(list@)[k] == changes.paths@[k]@);
        }
    }
    changes
}

/// Whether the pane with the changes can take the focus: only if it shows any.
pub fn changes_focusable(changes: Option<&Changes>) -> (focusable: bool)
    ensures
        focusable == (changes is Some && changes.unwrap().paths@.len() > 0),
{
    match changes {
        Some(changes) => changes.is_visible(),
        None => false,
    }
}

/// A person as a commit names them.
pub struct Author {
    /// The name.
    pub name: Vec<u8>,
    /// The address.
    pub email: Vec<u8>,
}

/// The author as text, exactly as the commit has it.
pub fn actor_bytes(author: &Author) -> (text: Vec<u8>)
    ensures
        text@ == author.name@ + ascii(" <") + author.email@ + ascii(">"),
{
    let mut text = slice_to_vec(author.name.as_slice());
    let open = literal(" <");
    append(&mut text, open.as_slice());
    append(&mut text, author.email.as_slice());
    let close = literal(">");
    append(&mut text, close.as_slice());
    text
}

/// Counting past the last parent begins with the first again.
pub proof fn law_parent_selection_wraps(requested: usize, parents: usize)
    requires
        parents > 0,
        requested + parents <= usize::MAX,
    ensures
        wrapped_parent((requested + parents) as usize, parents as nat) == wrapped_parent(
            requested,
            parents as nat,
        ),
        wrapped_parent(parents, parents as nat) == 0,
        0 <= wrapped_parent(requested, parents as nat) < parents,
{
    assert((requested as int + parents as int) % parents as int == requested as int
        % parents as int) by (nonlinear_arith)
        requires
            parents > 0,
    ;
    assert(parents as int % parents as int == 0) by (nonlinear_arith)
        requires
            parents > 0,
    ;
}

} // verus!
