//! What has to be loaded before a frame can be drawn.

use vstd::prelude::*;

use crate::changes::Changes;
use crate::oid::same_id;
use crate::oid::view_id;
use crate::oid::ObjectId;
use crate::session::App;

verus! {

/// The commit whose message is loaded, with that message.
pub type LoadedMessage = Option<(ObjectId, Vec<u8>)>;

/// The commit whose changes are loaded, and against which parent, with those changes.
pub type LoadedChanges = Option<(ObjectId, usize, Changes)>;

/// How many commits fit into an area: all rows but the footer, and the two spacers around an inline
/// graph.
pub fn viewport_rows(area_height: u16, inline: bool) -> (rows: usize)
    ensures
        rows == (if area_height < (if inline {
            3int
        } else {
            1
        }) {
            0
        } else {
            area_height - (if inline {
                3int
            } else {
                1
            })
        }),
{
    let taken: u16 = if inline {
        3
    } else {
        1
    };
    area_height.saturating_sub(taken) as usize
}

/// The position of the first commit that is shown.
pub open spec fn first_shown(app: App) -> int {
    if app.offset < app.rows@.len() {
        app.offset as int
    } else {
        app.rows@.len() as int
    }
}

/// The position after the last commit that is shown.
pub open spec fn end_shown(app: App) -> int {
    if first_shown(app) + app.viewport_rows < app.rows@.len() {
        first_shown(app) + app.viewport_rows
    } else {
        app.rows@.len() as int
    }
}

/// The selected commit, as far as a pane shows it.
pub open spec fn shown_selection(app: App) -> Option<Seq<u8>> {
    match app.selected {
        Some(index) => if (app.show_commit || app.show_changes) && index < app.rows@.len() {
            Some(app.rows@[index as int].id@)
        } else {
            None
        },
        None => None,
    }
}

/// The commit whose message is loaded.
pub open spec fn message_of(message: LoadedMessage) -> Option<Seq<u8>> {
    match message {
        Some((id, _)) => Some(id@),
        None => None,
    }
}

/// The commit and the parent whose changes are loaded.
pub open spec fn changes_key(changes: LoadedChanges) -> Option<(Seq<u8>, usize)> {
    match changes {
        Some((id, parent, _)) => Some((id@, parent)),
        None => None,
    }
}

/// The commit whose message has to be loaded.
pub open spec fn wanted_message(app: App, message: LoadedMessage) -> Option<Seq<u8>> {
    if app.show_commit && message_of(message) != shown_selection(app) {
        shown_selection(app)
    } else {
        None
    }
}

/// The parent to compare to: the first one again for another commit.
pub open spec fn wanted_parent(app: App, changes: LoadedChanges) -> usize {
    if app.show_changes && shown_selection(app) is Some && (changes is None
        || changes.unwrap().0@ != shown_selection(app).unwrap()) {
        0
    } else {
        app.changes_parent
    }
}

/// The commit whose changes have to be loaded.
pub open spec fn wanted_changes(app: App, changes: LoadedChanges) -> Option<Seq<u8>> {
    if app.show_changes && shown_selection(app) is Some && changes_key(changes) != Some(
        (shown_selection(app).unwrap(), wanted_parent(app, changes)),
    ) {
        shown_selection(app)
    } else {
        None
    }
}

/// The commits in the given range of which something is still to be loaded.
pub open spec fn unloaded_rows(app: App, start: int, end: int) -> Seq<int>
    decreases end - start,
{
    if start >= end {
        Seq::empty()
    } else {
        let earlier = unloaded_rows(app, start, end - 1);
        if app.rows@[end - 1].metadata_loaded {
            earlier
        } else {
            earlier.push(end - 1)
        }
    }
}

/// What has to be loaded before a frame can be drawn.
pub struct FramePlan {
    /// The first commit that is shown.
    pub start: usize,
    /// The position after the last commit that is shown.
    pub end: usize,
    /// The shown commits that are still to be loaded.
    pub rows: Vec<usize>,
    /// The commit whose message is to be loaded.
    pub message: Option<ObjectId>,
    /// The commit whose changes are to be loaded.
    pub changes: Option<ObjectId>,
}

impl FramePlan {
    /// Whether anything is to be loaded.
    pub open spec fn needs(&self) -> bool {
        self.rows@.len() > 0 || self.message is Some || self.changes is Some
    }

    /// Whether anything is to be loaded, for which a repository is needed.
    pub fn needs_repository(&self) -> (needs: bool)
        ensures
            needs == self.needs(),
    {
        self.rows.len() > 0 || self.message.is_some() || self.changes.is_some()
    }
}

/// Where the repository to load from comes from.
#[derive(Clone, Copy, Debug, Eq, PartialEq, Structural)]
pub enum RepositorySource {
    /// It is not needed.
    Unneeded,
    /// The one that was kept open.
    Retained,
    /// A new one, which is kept open.
    OpenAndRetain,
    /// A new one, which is closed again.
    OpenOnce,
}

/// Where the repository to load from comes from: one that is to be kept open is opened once.
pub fn repository_source(needed: bool, retain: bool, is_retained: bool) -> (source:
    RepositorySource)
    ensures
        source == (if !needed {
            RepositorySource::Unneeded
        } else if !retain {
            RepositorySource::OpenOnce
        } else if is_retained {
            RepositorySource::Retained
        } else {
            RepositorySource::OpenAndRetain
        }),
{
    if !needed {
        RepositorySource::Unneeded
    } else if !retain {
        RepositorySource::OpenOnce
    } else if is_retained {
        RepositorySource::Retained
    } else {
        RepositorySource::OpenAndRetain
    }
}

/// The positions in a list.
pub open spec fn positions(list: Seq<usize>) -> Seq<int> {
    list.map_values(|position: usize| position as int)
}

/// What a pane shows of the selection.
fn selection(app: &App) -> (id: Option<ObjectId>)
    ensures
        view_id(id) == shown_selection(*app),
{
    if !app.show_commit && !app.show_changes {
        return None;
    }
    match app.selected {
        Some(index) if index < app.rows.len() => Some(app.rows[index].id.copy()),
        _ => None,
    }
}

/// The shown commits that are still to be loaded.
fn unloaded(app: &App, start: usize, end: usize) -> (rows: Vec<usize>)
    requires
        start <= end <= app.rows@.len(),
    ensures
        positions(rows@) == unloaded_rows(*app, start as int, end as int),
{
    let mut rows: Vec<usize> = Vec::new();
    let mut i: usize = start;
    assert(positions(rows@) =~= Seq::empty());
    while i < end
        invariant
            start <= i <= end <= app.rows@.len(),
            positions(rows@) == unloaded_rows(*app, start as int, i as int),
        decreases end - i,
    {
        let ghost before = rows@;
        if !app.rows[i].metadata_loaded {
            rows.push(i);
            assert(positions(rows@) =~= positions(before).push(i as int));
        }
        i += 1;
    }
    rows
}

/// Finds out what has to be loaded before the next frame: the shown commits that are not loaded,
/// and the message and the changes of the selected commit where panes show them. What no pane
/// shows any more is forgotten, another commit is compared to its first parent, and other changes
/// are shown from their beginning.
pub fn plan_frame(app: &mut App, message: &mut LoadedMessage, changes: &mut LoadedChanges) -> (plan:
    FramePlan)
    ensures
        plan.start == first_shown(*old(app)),
        plan.end == end_shown(*old(app)),
        positions(plan.rows@) == unloaded_rows(
            *old(app),
            first_shown(*old(app)),
            end_shown(*old(app)),
        ),
        view_id(plan.message) == wanted_message(*old(app), *old(message)),
        view_id(plan.changes) == wanted_changes(*old(app), *old(changes)),
        *final(app) == (App {
            changes_parent: wanted_parent(*old(app), *old(changes)),
            reset_changes_view: old(app).reset_changes_view || wanted_changes(
                *old(app),
                *old(changes),
            ) is Some,
            ..*old(app)
        }),
        *final(message) == (if old(app).show_commit && shown_selection(*old(app)) is Some {
            *old(message)
        } else {
            None
        }),
        *final(changes) == (if old(app).show_changes && shown_selection(*old(app)) is Some {
            *old(changes)
        } else {
            None
        }),
{
    let start: usize = if app.offset < app.rows.len() {
        app.offset
    } else {
        app.rows.len()
    };
    let end: usize = if app.viewport_rows < app.rows.len() - start {
        start + app.viewport_rows
    } else {
        app.rows.len()
    };
    let selected = selection(app);
    let rows = unloaded(app, start, end);

    let cached_message = match message {
        Some((id, _)) => Some(id.copy()),
        None => None,
    };
    let wanted_message = if app.show_commit && !same_id(&cached_message, &selected) {
        match &selected {
            Some(id) => Some(id.copy()),
            None => None,
        }
    } else {
        None
    };

    let (cached_changes, cached_parent): (Option<ObjectId>, usize) = match changes {
        Some((id, parent, _)) => (Some(id.copy()), *parent),
        None => (None, 0),
    };
    let same_commit = same_id(&cached_changes, &selected);
    if app.show_changes && selected.is_some() && !same_commit {
        app.changes_parent = 0;
    }
    let wanted_changes = if app.show_changes && !(same_commit && cached_parent
        == app.changes_parent) {
        match &selected {
            Some(id) => Some(id.copy()),
            None => None,
        }
    } else {
        None
    };
    if wanted_changes.is_some() {
        app.reset_changes_view = true;
    }
    if !app.show_commit || selected.is_none() {
        *message = None;
    }
    if !app.show_changes || selected.is_none() {
        *changes = None;
    }
    FramePlan { start, end, rows, message: wanted_message, changes: wanted_changes }
}

/// Keeps the message of a commit.
pub fn keep_message(message: &mut LoadedMessage, id: ObjectId, text: Vec<u8>)
    ensures
        *final(message) == Some((id, text)),
{
    *message = Some((id, text));
}

/// The parent that changes were compared to.
pub open spec fn compared_to(loaded: Changes) -> usize {
    match loaded.parent {
        Some(parent) => parent.index,
        None => 0,
    }
}

/// Keeps the changes of a commit, and the parent that they were compared to.
pub fn keep_changes(app: &mut App, changes: &mut LoadedChanges, id: ObjectId, loaded: Changes)
    ensures
        *final(app) == (App { changes_parent: compared_to(loaded), ..*old(app) }),
        *final(changes) == Some((id, compared_to(loaded), loaded)),
{
    let parent: usize = match &loaded.parent {
        Some(parent) => parent.index,
        None => 0,
    };
    app.changes_parent = parent;
    *changes = Some((id, parent, loaded));
}

/// What was loaded for a frame is not loaded for the next one.
pub proof fn law_loaded_panes_are_kept(
    app: App,
    id: ObjectId,
    text: Vec<u8>,
    loaded: Changes,
)
    requires
        shown_selection(app) == Some(id@),
        app.changes_parent == compared_to(loaded),
    ensures
        wanted_message(app, Some((id, text))) is None,
        wanted_changes(app, Some((id, compared_to(loaded), loaded))) is None,
        wanted_parent(app, Some((id, compared_to(loaded), loaded))) == compared_to(loaded),
{
}

/// No commit is loaded that isn't shown or is loaded already, and each of the others is.
pub proof fn law_only_shown_commits_are_loaded(app: App, start: int, end: int, index: int)
    ensures
        unloaded_rows(app, start, end).contains(index) <==> start <= index < end
            && !app.rows@[index].metadata_loaded,
    decreases end - start,
{
    let whole = unloaded_rows(app, start, end);
    if start < end {
        law_only_shown_commits_are_loaded(app, start, end - 1, index);
        let earlier = unloaded_rows(app, start, end - 1);
        if !app.rows@[end - 1].metadata_loaded {
            assert(whole == earlier.push(end - 1));
            assert(whole[whole.len() - 1] == end - 1);
            if earlier.contains(index) {
                let place = choose|i: int| 0 <= i < earlier.len() && earlier[i] == index;
                assert(whole[place] == index);
            }
            if whole.contains(index) && index != end - 1 {
                let place = choose|i: int| 0 <= i < whole.len() && whole[i] == index;
                assert(earlier[place] == index);
            }
        }
    }
}

/// Without panes nothing is loaded for the selected commit.
pub proof fn law_hidden_panes_load_nothing(app: App, message: LoadedMessage, changes: LoadedChanges)
    requires
        !app.show_commit,
        !app.show_changes,
    ensures
        wanted_message(app, message) is None,
        wanted_changes(app, changes) is None,
{
}

} // verus!
