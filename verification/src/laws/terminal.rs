//! Laws on the screen and the keys of the commit graph.

use vstd::prelude::*;

use crate::keys::action_of;
use crate::keys::moves_viewport;
use crate::keys::Action;
use crate::keys::KeyCode;
use crate::keys::KeyEvent;
use crate::keys::KeyEventKind;
use crate::keys::KeyModifiers;
use crate::screen::half_of;
use crate::screen::inline_rows;
use crate::screen::screen_change;
use crate::screen::Screen;
use crate::screen::ScreenChange;

verus! {

/// Half of a terminal is as many rows as fit twice into it, but at least one.
pub proof fn law_half_fits_twice(terminal_height: u16)
    ensures
        half_of(terminal_height) >= 1,
        terminal_height >= 2 ==> 2 * half_of(terminal_height) <= terminal_height < 2 * half_of(
            terminal_height,
        ) + 2,
        terminal_height < 2 ==> half_of(terminal_height) == 1,
{
}

/// In automatic mode a history is shown inline if it has fewer commits than half of the terminal has
/// rows, and takes a row for each and three more. In half mode it takes as many, but never more than
/// half of the terminal. It is never shown inline where the alternate screen is always used.
pub proof fn law_short_histories_are_inline(terminal_height: u16, commits: usize)
    ensures
        inline_rows(Screen::Always, terminal_height, commits) is None,
        terminal_height >= 2 ==> (inline_rows(Screen::Auto, terminal_height, commits) is Some <==> 2
            * commits + 1 < terminal_height || 2 * (commits + 1) == terminal_height),
        terminal_height < 2 ==> (inline_rows(Screen::Auto, terminal_height, commits) is Some
            <==> commits == 0),
        inline_rows(Screen::Auto, terminal_height, commits) matches Some(rows) ==> rows == commits
            + 3,
        inline_rows(Screen::Half, terminal_height, commits) matches Some(rows) && rows <= commits + 3
            && (rows == commits + 3 || rows == terminal_height / 2 || (terminal_height < 2 && rows
            == 1)) && (terminal_height >= 2 ==> 2 * rows <= terminal_height) && (terminal_height < 2
            ==> rows == 1),
{
}

/// A session that began inline enters the alternate screen exactly if it isn't there and anything needs
/// it: a pane, a long history, or a history without a height. It leaves it exactly if it is there and
/// nothing needs it. Otherwise an inline screen gets its new height if it is to, and nothing happens
/// to any other.
pub proof fn law_the_screen_follows_what_is_shown(
    height: Option<u16>,
    show_panel: bool,
    long_history: bool,
    started_inline: bool,
    inline: bool,
    resize_inline: bool,
    in_alternate_screen: bool,
    rows: u16,
)
    ensures
        ({
            let change = screen_change(
                height,
                show_panel,
                long_history,
                started_inline,
                inline,
                resize_inline,
                in_alternate_screen,
            );
            &&& change == ScreenChange::Enter <==> started_inline && !in_alternate_screen && (
            show_panel || long_history || height is None)
            &&& change == ScreenChange::Leave(rows) <==> started_inline && in_alternate_screen
                && !show_panel && !long_history && height == Some(rows)
            &&& change == ScreenChange::Resize(rows) <==> started_inline && inline && resize_inline
                && height == Some(rows) && in_alternate_screen == (show_panel || long_history)
        }),
{
}

/// A key event.
pub open spec fn pressed(code: KeyCode, control: bool, shift: bool, kind: KeyEventKind) -> KeyEvent {
    KeyEvent { code, modifiers: KeyModifiers { control, shift }, kind }
}

/// What the keys without a character do, whatever is held down with them.
pub proof fn law_special_keys(control: bool, shift: bool, kind: KeyEventKind)
    ensures
        action_of(pressed(KeyCode::LeftShift, control, shift, kind)) == Some(
            Action::PreviewAuthorCopy(kind == KeyEventKind::Press || kind == KeyEventKind::Repeat),
        ),
        action_of(pressed(KeyCode::RightShift, control, shift, kind)) == Some(
            Action::PreviewAuthorCopy(kind == KeyEventKind::Press || kind == KeyEventKind::Repeat),
        ),
        action_of(pressed(KeyCode::Other, control, shift, kind)) is None,
        kind != KeyEventKind::Release ==> {
            &&& action_of(pressed(KeyCode::Tab, control, shift, kind)) == Some(
                Action::ToggleChangesFocus,
            )
            &&& action_of(pressed(KeyCode::Esc, control, shift, kind)) == Some(Action::Cancel)
            &&& action_of(pressed(KeyCode::Up, control, shift, kind)) == Some(Action::MoveUp)
            &&& action_of(pressed(KeyCode::Down, control, shift, kind)) == Some(Action::MoveDown)
            &&& action_of(pressed(KeyCode::PageUp, control, shift, kind)) == Some(Action::PageUp)
            &&& action_of(pressed(KeyCode::PageDown, control, shift, kind)) == Some(Action::PageDown)
            &&& action_of(pressed(KeyCode::Home, control, shift, kind)) == Some(Action::First)
            &&& action_of(pressed(KeyCode::End, control, shift, kind)) == Some(Action::Last)
        },
{
}

/// A released key with a character does nothing.
pub proof fn law_released_characters_do_nothing(letter: char, control: bool, shift: bool)
    ensures
        action_of(pressed(KeyCode::Char(letter), control, shift, KeyEventKind::Release)) is None,
        action_of(pressed(KeyCode::Tab, control, shift, KeyEventKind::Release)) is None,
        action_of(pressed(KeyCode::Esc, control, shift, KeyEventKind::Release)) is None,
        action_of(pressed(KeyCode::Up, control, shift, KeyEventKind::Release)) is None,
        action_of(pressed(KeyCode::Down, control, shift, KeyEventKind::Release)) is None,
        action_of(pressed(KeyCode::PageUp, control, shift, KeyEventKind::Release)) is None,
        action_of(pressed(KeyCode::PageDown, control, shift, KeyEventKind::Release)) is None,
        action_of(pressed(KeyCode::Home, control, shift, KeyEventKind::Release)) is None,
        action_of(pressed(KeyCode::End, control, shift, KeyEventKind::Release)) is None,
{
}

/// What a pressed or held character does.
pub open spec fn types(letter: char, control: bool, shift: bool, kind: KeyEventKind, action: Action) -> bool {
    action_of(pressed(KeyCode::Char(letter), control, shift, kind)) == Some(action)
}

/// The control key gives some letters another meaning, whatever the shift key does.
pub proof fn law_control_changes_letters(shift: bool, kind: KeyEventKind)
    requires
        kind != KeyEventKind::Release,
    ensures
        types('c', true, shift, kind, Action::Quit),
        types('b', true, shift, kind, Action::PageUp),
        types('f', true, shift, kind, Action::PageDown),
        types('u', true, shift, kind, Action::HalfPageUp),
        types('d', true, shift, kind, Action::HalfPageDown),
        types('c', false, shift, kind, Action::ToggleChanges),
        types('d', false, shift, kind, Action::ToggleDate),
        action_of(pressed(KeyCode::Char('b'), false, shift, kind)) is None,
        action_of(pressed(KeyCode::Char('f'), false, shift, kind)) is None,
        action_of(pressed(KeyCode::Char('u'), false, shift, kind)) is None,
{
}

/// The shift key makes the last one of the first, and the author of the id, as do the capital letters.
pub proof fn law_shift_changes_letters(control: bool, kind: KeyEventKind)
    requires
        kind != KeyEventKind::Release,
    ensures
        types('g', control, true, kind, Action::Last),
        types('g', control, false, kind, Action::First),
        types('y', control, true, kind, Action::CopyAuthor),
        types('y', control, false, kind, Action::Copy),
        types('G', control, true, kind, Action::Last),
        types('G', control, false, kind, Action::Last),
        types('Y', control, true, kind, Action::CopyAuthor),
        types('Y', control, false, kind, Action::CopyAuthor),
{
}

/// Other characters mean the same whatever is held down with them, and most mean nothing.
pub proof fn law_other_characters(letter: char, control: bool, shift: bool, kind: KeyEventKind)
    requires
        kind != KeyEventKind::Release,
    ensures
        types('p', control, shift, kind, Action::CycleChangesParent),
        types('q', control, shift, kind, Action::Quit),
        types('k', control, shift, kind, Action::MoveUp),
        types('j', control, shift, kind, Action::MoveDown),
        types('h', control, shift, kind, Action::ScrollLeft),
        types('l', control, shift, kind, Action::ScrollRight),
        types('e', control, shift, kind, Action::ToggleEmail),
        types('n', control, shift, kind, Action::ToggleName),
        types('t', control, shift, kind, Action::ToggleTrailers),
        types('m', control, shift, kind, Action::ToggleMailmap),
        types('r', control, shift, kind, Action::ToggleRefs),
        types('s', control, shift, kind, Action::VerifySignatures),
        types('v', control, shift, kind, Action::ToggleHidden),
        types('[', control, shift, kind, Action::ToggleAlign),
        types(']', control, shift, kind, Action::ToggleCommit),
        types('o', control, shift, kind, Action::ToggleCommit),
        action_of(pressed(KeyCode::Char(letter), control, shift, kind)) is Some ==> seq![
            'c', 'b', 'f', 'u', 'd', 'g', 'y', 'G', 'Y', 'p', 'q', 'k', 'j', 'h', 'l', 'e', 'n', 't',
            'm', 'r', 's', 'v', '[', ']', 'o',
        ].contains(letter),
{
    let all = seq![
        'c', 'b', 'f', 'u', 'd', 'g', 'y', 'G', 'Y', 'p', 'q', 'k', 'j', 'h', 'l', 'e', 'n', 't',
        'm', 'r', 's', 'v', '[', ']', 'o',
    ];
    assert(all[0] == 'c' && all[1] == 'b' && all[2] == 'f' && all[3] == 'u' && all[4] == 'd'
        && all[5] == 'g' && all[6] == 'y' && all[7] == 'G' && all[8] == 'Y' && all[9] == 'p'
        && all[10] == 'q' && all[11] == 'k' && all[12] == 'j' && all[13] == 'h' && all[14] == 'l'
        && all[15] == 'e' && all[16] == 'n' && all[17] == 't' && all[18] == 'm' && all[19] == 'r'
        && all[20] == 's' && all[21] == 'v' && all[22] == '[' && all[23] == ']' && all[24] == 'o');
}

/// Only the actions that move through the rows keep the repository open while a key is held down.
pub proof fn law_moving_actions(action: Action)
    ensures
        moves_viewport(action) <==> action == Action::MoveUp || action == Action::MoveDown || action
            == Action::HalfPageUp || action == Action::HalfPageDown || action == Action::PageUp
            || action == Action::PageDown || action == Action::First || action == Action::Last,
{
}

} // verus!
