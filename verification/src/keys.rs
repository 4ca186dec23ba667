//! The keys of the commit graph and what they do.

use vstd::prelude::*;

verus! {

/// What a key stands for.
#[derive(Clone, Copy, Debug, Eq, PartialEq, Structural)]
pub enum KeyCode {
    /// A character.
    Char(char),
    /// The tabulator key.
    Tab,
    /// The escape key.
    Esc,
    /// The upward arrow.
    Up,
    /// The downward arrow.
    Down,
    /// The key for the previous page.
    PageUp,
    /// The key for the next page.
    PageDown,
    /// The key for the beginning.
    Home,
    /// The key for the end.
    End,
    /// The left shift key by itself.
    LeftShift,
    /// The right shift key by itself.
    RightShift,
    /// Any other key.
    Other,
}

/// What happened to a key.
#[derive(Clone, Copy, Debug, Eq, PartialEq, Structural)]
pub enum KeyEventKind {
    /// It was pressed.
    Press,
    /// It is held down.
    Repeat,
    /// It was released.
    Release,
}

/// The keys that are held down with another one.
#[derive(Clone, Copy, Debug, Eq, PartialEq, Structural)]
pub struct KeyModifiers {
    /// The control key.
    pub control: bool,
    /// The shift key.
    pub shift: bool,
}

/// Something that happened to a key.
#[derive(Clone, Copy, Debug, Eq, PartialEq, Structural)]
pub struct KeyEvent {
    /// The key.
    pub code: KeyCode,
    /// The keys held down with it.
    pub modifiers: KeyModifiers,
    /// What happened to it.
    pub kind: KeyEventKind,
}

/// What can be done with the commit graph.
#[derive(Clone, Copy, Debug, Eq, PartialEq, Structural)]
pub enum Action {
    MoveUp,
    MoveDown,
    ScrollLeft,
    ScrollRight,
    HalfPageUp,
    HalfPageDown,
    PageUp,
    PageDown,
    First,
    Last,
    ToggleDate,
    ToggleEmail,
    ToggleName,
    ToggleTrailers,
    ToggleMailmap,
    ToggleRefs,
    ToggleHidden,
    ToggleAlign,
    ToggleCommit,
    ToggleChanges,
    ToggleChangesFocus,
    CycleChangesParent,
    VerifySignatures,
    Copy,
    CopyAuthor,
    /// Show or hide what copying the author would copy.
    PreviewAuthorCopy(bool),
    Cancel,
    /// The history was cancelled.
    Cancelled,
    Quit,
}

/// Whether this is a shift key by itself.
pub open spec fn is_shift(code: KeyCode) -> bool {
    code == KeyCode::LeftShift || code == KeyCode::RightShift
}

/// What a letter does while the control key is held down, where that differs.
pub open spec fn control_action(letter: char) -> Option<Action> {
    if letter == 'c' {
        Some(Action::Quit)
    } else if letter == 'b' {
        Some(Action::PageUp)
    } else if letter == 'f' {
        Some(Action::PageDown)
    } else if letter == 'u' {
        Some(Action::HalfPageUp)
    } else if letter == 'd' {
        Some(Action::HalfPageDown)
    } else {
        None
    }
}

/// What a letter does while the shift key is held down, where that differs.
pub open spec fn shift_action(letter: char) -> Option<Action> {
    if letter == 'g' {
        Some(Action::Last)
    } else if letter == 'y' {
        Some(Action::CopyAuthor)
    } else {
        None
    }
}

/// What a character does by itself.
pub open spec fn plain_action(letter: char) -> Option<Action> {
    if letter == 'c' {
        Some(Action::ToggleChanges)
    } else if letter == 'p' {
        Some(Action::CycleChangesParent)
    } else if letter == 'q' {
        Some(Action::Quit)
    } else if letter == 'k' {
        Some(Action::MoveUp)
    } else if letter == 'j' {
        Some(Action::MoveDown)
    } else if letter == 'h' {
        Some(Action::ScrollLeft)
    } else if letter == 'l' {
        Some(Action::ScrollRight)
    } else if letter == 'g' {
        Some(Action::First)
    } else if letter == 'G' {
        Some(Action::Last)
    } else if letter == 'd' {
        Some(Action::ToggleDate)
    } else if letter == 'e' {
        Some(Action::ToggleEmail)
    } else if letter == 'n' {
        Some(Action::ToggleName)
    } else if letter == 't' {
        Some(Action::ToggleTrailers)
    } else if letter == 'm' {
        Some(Action::ToggleMailmap)
    } else if letter == 'r' {
        Some(Action::ToggleRefs)
    } else if letter == 's' {
        Some(Action::VerifySignatures)
    } else if letter == 'v' {
        Some(Action::ToggleHidden)
    } else if letter == '[' {
        Some(Action::ToggleAlign)
    } else if letter == ']' || letter == 'o' {
        Some(Action::ToggleCommit)
    } else if letter == 'Y' {
        Some(Action::CopyAuthor)
    } else if letter == 'y' {
        Some(Action::Copy)
    } else {
        None
    }
}

/// What a key does: a modified letter does what the modifier gives it, if that is anything, and
/// what it does by itself otherwise. Released keys do nothing, except for the shift keys.
pub open spec fn action_of(key: KeyEvent) -> Option<Action> {
    if is_shift(key.code) {
        Some(Action::PreviewAuthorCopy(key.kind != KeyEventKind::Release))
    } else if key.kind == KeyEventKind::Release {
        None
    } else {
        match key.code {
            KeyCode::Tab => Some(Action::ToggleChangesFocus),
            KeyCode::Esc => Some(Action::Cancel),
            KeyCode::Up => Some(Action::MoveUp),
            KeyCode::Down => Some(Action::MoveDown),
            KeyCode::PageUp => Some(Action::PageUp),
            KeyCode::PageDown => Some(Action::PageDown),
            KeyCode::Home => Some(Action::First),
            KeyCode::End => Some(Action::Last),
            KeyCode::Char(letter) => if key.modifiers.control && control_action(letter) is Some {
                control_action(letter)
            } else if key.modifiers.shift && shift_action(letter) is Some {
                shift_action(letter)
            } else {
                plain_action(letter)
            },
            _ => None,
        }
    }
}

/// What a key does.
pub fn action(key: KeyEvent) -> (action: Option<Action>)
    ensures
        action == action_of(key),
{
    if key.kind == KeyEventKind::Release && key.code != KeyCode::LeftShift && key.code
        != KeyCode::RightShift {
        return None;
    }
    match key.code {
        KeyCode::LeftShift | KeyCode::RightShift => Some(
            Action::PreviewAuthorCopy(key.kind != KeyEventKind::Release),
        ),
        KeyCode::Tab => Some(Action::ToggleChangesFocus),
        KeyCode::Esc => Some(Action::Cancel),
        KeyCode::Up => Some(Action::MoveUp),
        KeyCode::Down => Some(Action::MoveDown),
        KeyCode::PageUp => Some(Action::PageUp),
        KeyCode::PageDown => Some(Action::PageDown),
        KeyCode::Home => Some(Action::First),
        KeyCode::End => Some(Action::Last),
        KeyCode::Char(letter) => character_action(letter, key.modifiers),
        KeyCode::Other => None,
    }
}

fn character_action(letter: char, modifiers: KeyModifiers) -> (action: Option<Action>)
    ensures
        action == (if modifiers.control && control_action(letter) is Some {
            control_action(letter)
        } else if modifiers.shift && shift_action(letter) is Some {
            shift_action(letter)
        } else {
            plain_action(letter)
        }),
{
    match letter {
        'c' if modifiers.control => Some(Action::Quit),
        'c' => Some(Action::ToggleChanges),
        'p' => Some(Action::CycleChangesParent),
        'q' => Some(Action::Quit),
        'k' => Some(Action::MoveUp),
        'j' => Some(Action::MoveDown),
        'h' => Some(Action::ScrollLeft),
        'l' => Some(Action::ScrollRight),
        'b' if modifiers.control => Some(Action::PageUp),
        'f' if modifiers.control => Some(Action::PageDown),
        'u' if modifiers.control => Some(Action::HalfPageUp),
        'd' if modifiers.control => Some(Action::HalfPageDown),
        'g' if modifiers.shift => Some(Action::Last),
        'g' => Some(Action::First),
        'G' => Some(Action::Last),
        'd' => Some(Action::ToggleDate),
        'e' => Some(Action::ToggleEmail),
        'n' => Some(Action::ToggleName),
        't' => Some(Action::ToggleTrailers),
        'm' => Some(Action::ToggleMailmap),
        'r' => Some(Action::ToggleRefs),
        's' => Some(Action::VerifySignatures),
        'v' => Some(Action::ToggleHidden),
        '[' => Some(Action::ToggleAlign),
        ']' | 'o' => Some(Action::ToggleCommit),
        'Y' => Some(Action::CopyAuthor),
        'y' if modifiers.shift => Some(Action::CopyAuthor),
        'y' => Some(Action::Copy),
        _ => None,
    }
}

/// Whether an action moves through the rows and is likely to be repeated.
pub open spec fn moves_viewport(action: Action) -> bool {
    match action {
        Action::MoveUp
        | Action::MoveDown
        | Action::HalfPageUp
        | Action::HalfPageDown
        | Action::PageUp
        | Action::PageDown
        | Action::First
        | Action::Last => true,
        _ => false,
    }
}

/// Whether an action moves through the rows and is likely to be repeated.
pub fn repeats_viewport(action: Action) -> (repeats: bool)
    ensures
        repeats == moves_viewport(action),
{
    matches!(
        action,
        Action::MoveUp | Action::MoveDown | Action::HalfPageUp | Action::HalfPageDown
            | Action::PageUp | Action::PageDown | Action::First | Action::Last
    )
}

/// Whether the repository that fills in visible commits is kept open for the next frame: only
/// while a key that moves through the rows is held down.
pub fn retains_fill_repository(
    kind: KeyEventKind,
    action: Option<Action>,
    changes_focused: bool,
) -> (retains: bool)
    ensures
        retains == (!changes_focused && kind == KeyEventKind::Repeat && action is Some
            && moves_viewport(action.unwrap())),
{
    match action {
        Some(action) => !changes_focused && kind == KeyEventKind::Repeat && repeats_viewport(
            action,
        ),
        None => false,
    }
}

/// Held keys do what pressed keys do.
pub proof fn law_repeating_is_pressing(code: KeyCode, modifiers: KeyModifiers)
    ensures
        action_of(KeyEvent { code, modifiers, kind: KeyEventKind::Repeat }) == action_of(
            KeyEvent { code, modifiers, kind: KeyEventKind::Press },
        ),
{
}

/// Releasing a key does nothing but end the preview of the author.
pub proof fn law_releasing_does_nothing_else(code: KeyCode, modifiers: KeyModifiers)
    ensures
        action_of(KeyEvent { code, modifiers, kind: KeyEventKind::Release }) == (if is_shift(
            code,
        ) {
            Some(Action::PreviewAuthorCopy(false))
        } else {
            None
        }),
{
}

} // verus!
