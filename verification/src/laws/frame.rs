//! Laws on what is loaded for a frame.

use vstd::prelude::*;

use crate::changes::Changes;
use crate::frame::compared_to;
use crate::frame::end_shown;
use crate::frame::first_shown;
use crate::frame::shown_selection;
use crate::frame::unloaded_rows;
use crate::frame::wanted_changes;
use crate::frame::wanted_message;
use crate::frame::wanted_parent;
use crate::frame::FramePlan;
use crate::frame::LoadedChanges;
use crate::frame::LoadedMessage;
use crate::oid::ObjectId;
use crate::session::App;

verus! {

/// The commits from the first one that is shown on are shown, as many as fit and as there are.
pub proof fn law_shown_rows_are_those_that_fit(app: App)
    ensures
        0 <= first_shown(app) <= end_shown(app) <= app.rows@.len(),
        app.offset <= app.rows@.len() ==> first_shown(app) == app.offset,
        app.offset > app.rows@.len() ==> first_shown(app) == app.rows@.len(),
        end_shown(app) - first_shown(app) <= app.viewport_rows,
        end_shown(app) - first_shown(app) == app.viewport_rows || end_shown(app) == app.rows@.len(),
{
}

/// A commit is selected for the panes if any pane is shown and it is the one at the selected row.
pub proof fn law_panes_show_the_selected_row(app: App, index: usize)
    ensures
        !app.show_commit && !app.show_changes ==> shown_selection(app) is None,
        app.selected is None ==> shown_selection(app) is None,
        app.selected == Some(index) && index >= app.rows@.len() ==> shown_selection(app) is None,
        app.selected == Some(index) && index < app.rows@.len() && (app.show_commit
            || app.show_changes) ==> shown_selection(app) == Some(app.rows@[index as int].id@),
{
}

/// The message of the selected commit is loaded if its pane is shown, unless it is loaded already.
pub proof fn law_messages_are_loaded_for_their_pane(
    app: App,
    message: LoadedMessage,
    selected: Seq<u8>,
)
    requires
        shown_selection(app) == Some(selected),
    ensures
        !app.show_commit ==> wanted_message(app, message) is None,
        app.show_commit && message is None ==> wanted_message(app, message) == Some(selected),
        message matches Some((id, _)) ==> (app.show_commit && id@ != selected ==> wanted_message(
            app,
            message,
        ) == Some(selected)) && (id@ == selected ==> wanted_message(app, message) is None),
{
}

/// The changes of the selected commit are loaded if their pane is shown, unless they are loaded already
/// against the wanted parent. Another commit than the loaded one is compared to its first parent.
pub proof fn law_changes_are_loaded_for_their_pane(
    app: App,
    changes: LoadedChanges,
    selected: Seq<u8>,
)
    requires
        shown_selection(app) == Some(selected),
    ensures
        !app.show_changes ==> wanted_changes(app, changes) is None && wanted_parent(app, changes)
            == app.changes_parent,
        app.show_changes && changes is None ==> wanted_changes(app, changes) == Some(selected)
            && wanted_parent(app, changes) == 0,
        app.show_changes ==> (changes matches Some((id, parent, _)) ==> {
            &&& id@ != selected ==> wanted_changes(app, changes) == Some(selected) && wanted_parent(
                app,
                changes,
            ) == 0
            &&& id@ == selected ==> wanted_parent(app, changes) == app.changes_parent
            &&& id@ == selected && parent != app.changes_parent ==> wanted_changes(app, changes)
                == Some(selected)
            &&& id@ == selected && parent == app.changes_parent ==> wanted_changes(app, changes) is None
        }),
{
}

/// Without a selected commit nothing is loaded for panes, and the parent stays.
pub proof fn law_nothing_is_loaded_without_selection(
    app: App,
    message: LoadedMessage,
    changes: LoadedChanges,
)
    requires
        shown_selection(app) is None,
    ensures
        wanted_message(app, message) is None,
        wanted_changes(app, changes) is None,
        wanted_parent(app, changes) == app.changes_parent,
{
}

/// The rows to load are in their order.
pub proof fn law_rows_are_loaded_in_order(app: App, start: int, end: int, i: int, j: int)
    requires
        0 <= i < j < unloaded_rows(app, start, end).len(),
    ensures
        unloaded_rows(app, start, end)[i] < unloaded_rows(app, start, end)[j],
        unloaded_rows(app, start, end)[j] < end,
    decreases end - start,
{
    if start < end {
        let earlier = unloaded_rows(app, start, end - 1);
        if j < earlier.len() {
            law_rows_are_loaded_in_order(app, start, end - 1, i, j);
        } else {
            lemma_rows_are_before_the_end(app, start, end - 1, i);
        }
    }
}

/// A row is loaded exactly if it is in the given range and something of it isn't loaded yet.
pub proof fn law_rows_without_metadata_are_loaded(app: App, start: int, end: int, row: int)
    ensures
        unloaded_rows(app, start, end).contains(row) <==> start <= row < end
            && !app.rows@[row].metadata_loaded,
    decreases end - start,
{
    if start < end {
        law_rows_without_metadata_are_loaded(app, start, end - 1, row);
        let earlier = unloaded_rows(app, start, end - 1);
        let whole = unloaded_rows(app, start, end);
        if whole != earlier {
            assert(whole == earlier.push(end - 1));
            assert(whole[whole.len() - 1] == end - 1);
            if earlier.contains(row) {
                let k = choose|k: int| 0 <= k < earlier.len() && earlier[k] == row;
                assert(whole[k] == row);
            }
            if whole.contains(row) && row != end - 1 {
                let k = choose|k: int| 0 <= k < whole.len() && whole[k] == row;
                assert(earlier[k] == row);
            }
        }
    }
}

proof fn lemma_rows_are_before_the_end(app: App, start: int, end: int, i: int)
    requires
        0 <= i < unloaded_rows(app, start, end).len(),
    ensures
        start <= unloaded_rows(app, start, end)[i] < end,
    decreases end - start,
{
    if start < end {
        let earlier = unloaded_rows(app, start, end - 1);
        if i < earlier.len() {
            lemma_rows_are_before_the_end(app, start, end - 1, i);
        }
    }
}

/// Changes that say which parent they were compared to were compared to that one, and others to the first.
pub proof fn law_changes_say_what_they_were_compared_to(loaded: Changes, id: ObjectId)
    ensures
        loaded.parent is None ==> compared_to(loaded) == 0,
        loaded.parent matches Some(parent) ==> compared_to(loaded) == parent.index,
{
}

/// Something is to be loaded exactly if a row, a message or changes are.
pub proof fn law_anything_needs_a_repository(plan: FramePlan)
    ensures
        plan.rows@.len() > 0 ==> plan.needs(),
        plan.message is Some ==> plan.needs(),
        plan.changes is Some ==> plan.needs(),
        plan.needs() && plan.rows@.len() == 0 && plan.message is None ==> plan.changes is Some,
{
}

} // verus!
