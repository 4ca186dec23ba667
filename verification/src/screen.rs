//! How the commit graph occupies the terminal.

use vstd::prelude::*;

verus! {

/// How the commit graph occupies the terminal.
#[derive(Clone, Copy, Debug, Eq, PartialEq, Structural)]
pub enum Screen {
    /// Use the main screen for short histories, otherwise the alternate screen.
    Auto,
    /// Always use the alternate screen.
    Always,
    /// Use half of the main screen.
    Half,
}

impl Default for Screen {
    fn default() -> (screen: Self)
        ensures
            screen == Screen::Auto,
    {
        Screen::Auto
    }
}

/// Options for a session.
#[derive(Clone, Debug)]
pub struct Options {
    /// Exit once all commits and graph lanes have been computed.
    pub quit_on_finish: bool,
    /// Revisions whose reachable commits should initially be hidden.
    pub hide: Vec<Vec<u8>>,
    /// How much of the terminal to use.
    pub screen: Screen,
}

impl Default for Options {
    fn default() -> (options: Self)
        ensures
            !options.quit_on_finish,
            options.hide@.len() == 0,
            options.screen == Screen::Auto,
    {
        Options { quit_on_finish: false, hide: Vec::new(), screen: Screen::Auto }
    }
}

/// Half of the terminal, and at least one row.
pub open spec fn half_of(terminal_height: u16) -> int {
    if terminal_height < 2 {
        1
    } else {
        terminal_height as int / 2
    }
}

/// The rows that a history needs with its two spacers and its footer, as far as a terminal can
/// count them.
pub open spec fn compact_rows(commits: usize) -> int {
    if commits + 3 > u16::MAX {
        u16::MAX as int
    } else {
        commits + 3
    }
}

/// The height of the part of the main screen that a history of the given size is shown in, or
/// nothing if it belongs into the alternate screen.
pub open spec fn inline_rows(screen: Screen, terminal_height: u16, commits: usize) -> Option<u16> {
    match screen {
        Screen::Always => None,
        Screen::Half => Some(
            (if compact_rows(commits) < half_of(terminal_height) {
                compact_rows(commits)
            } else {
                half_of(terminal_height)
            }) as u16,
        ),
        Screen::Auto => if commits < half_of(terminal_height) {
            Some(compact_rows(commits) as u16)
        } else {
            None
        },
    }
}

/// Half of the terminal, and at least one row.
pub fn half_height(terminal_height: u16) -> (half: u16)
    ensures
        half == half_of(terminal_height),
{
    let half: u16 = terminal_height / 2;
    if half < 1 {
        1
    } else {
        half
    }
}

/// The height of the part of the main screen that a history of the given size is shown in, or
/// nothing if it belongs into the alternate screen.
pub fn inline_height(screen: Screen, terminal_height: u16, visible_commits: usize) -> (height:
    Option<u16>)
    ensures
        height == inline_rows(screen, terminal_height, visible_commits),
{
    let half: u16 = half_height(terminal_height);
    let compact: u16 = if visible_commits > 65532 {
        65535
    } else {
        visible_commits as u16 + 3
    };
    match screen {
        Screen::Always => None,
        Screen::Half => if compact < half {
            Some(compact)
        } else {
            Some(half)
        },
        Screen::Auto => if visible_commits < half as usize {
            Some(compact)
        } else {
            None
        },
    }
}

/// How many commits have to be counted before the screen can be chosen: none where the alternate
/// screen is used in any case, otherwise no more than half the terminal has rows.
pub fn commits_to_count(screen: Screen, terminal_height: u16) -> (limit: Option<usize>)
    ensures
        limit == (if screen == Screen::Always {
            None
        } else {
            Some(half_of(terminal_height) as usize)
        }),
{
    match screen {
        Screen::Always => None,
        Screen::Auto | Screen::Half => Some(half_height(terminal_height) as usize),
    }
}

/// Whether a session that started inline has to change between the screens.
pub fn should_switch_screen(
    started_inline: bool,
    needs_alternate_screen: bool,
    in_alternate_screen: bool,
) -> (switch: bool)
    ensures
        switch == (started_inline && needs_alternate_screen != in_alternate_screen),
{
    started_inline && needs_alternate_screen != in_alternate_screen
}

/// Whether a history of the given size has outgrown the main screen.
pub fn history_needs_alternate_screen(screen: Screen, terminal_height: u16, commits: usize) -> (needs:
    bool)
    ensures
        needs == (screen == Screen::Auto && commits >= half_of(terminal_height)),
{
    screen == Screen::Auto && inline_height(screen, terminal_height, commits).is_none()
}

/// Whether anything that is shown needs the alternate screen.
pub fn needs_alternate_screen(
    show_panel: bool,
    history_requires_alternate_screen: bool,
    current_inline_height: Option<u16>,
) -> (needs: bool)
    ensures
        needs == (show_panel || history_requires_alternate_screen || current_inline_height is None),
{
    show_panel || history_requires_alternate_screen || current_inline_height.is_none()
}

/// What the terminal has to do to show the session on the right screen.
#[derive(Clone, Copy, Debug, Eq, PartialEq, Structural)]
pub enum ScreenChange {
    /// Nothing.
    Stay,
    /// Give the inline part of the main screen this height.
    Resize(u16),
    /// Enter the alternate screen and keep the inline terminal for later.
    Enter,
    /// Leave the alternate screen, and then give the inline part this height.
    Leave(u16),
}

/// The screen change that a session needs.
pub open spec fn screen_change(
    inline_rows: Option<u16>,
    show_panel: bool,
    history_requires_alternate_screen: bool,
    started_inline: bool,
    inline: bool,
    resize_inline: bool,
    in_alternate_screen: bool,
) -> ScreenChange {
    let needs_alternate = show_panel || history_requires_alternate_screen || inline_rows is None;
    if !started_inline {
        ScreenChange::Stay
    } else if needs_alternate == in_alternate_screen {
        if inline && resize_inline && inline_rows is Some {
            ScreenChange::Resize(inline_rows.unwrap())
        } else {
            ScreenChange::Stay
        }
    } else if needs_alternate {
        ScreenChange::Enter
    } else {
        ScreenChange::Leave(inline_rows.unwrap())
    }
}

/// The screen change that a session needs, given the height of the part of the main screen that
/// its history fits into.
pub fn plan_screen(
    inline_height: Option<u16>,
    show_panel: bool,
    history_requires_alternate_screen: bool,
    started_inline: bool,
    inline: bool,
    resize_inline: bool,
    in_alternate_screen: bool,
) -> (change: ScreenChange)
    ensures
        change == screen_change(
            inline_height,
            show_panel,
            history_requires_alternate_screen,
            started_inline,
            inline,
            resize_inline,
            in_alternate_screen,
        ),
{
    let needs_alternate = needs_alternate_screen(
        show_panel,
        history_requires_alternate_screen,
        inline_height,
    );
    if !should_switch_screen(started_inline, needs_alternate, in_alternate_screen) {
        return match inline_height {
            Some(height) if started_inline && inline && resize_inline => ScreenChange::Resize(
                height,
            ),
            _ => ScreenChange::Stay,
        };
    }
    if needs_alternate {
        ScreenChange::Enter
    } else {
        match inline_height {
            Some(height) => ScreenChange::Leave(height),
            None => ScreenChange::Stay,
        }
    }
}

/// Whether the inline part has to be replaced to get the wanted height.
pub fn needs_resize(current: u16, wanted: u16) -> (needs: bool)
    ensures
        needs == (current != wanted),
{
    current != wanted
}

/// Where the cursor goes when an inline session ends.
#[derive(Clone, Copy, Debug, Eq, PartialEq, Structural)]
pub struct Parting {
    /// The row of the footer, which is cleared.
    pub cleared_row: u16,
    /// The row that the cursor is left in or, before a line break, moved to.
    pub cursor_row: u16,
    /// Whether a line break has to make room below the inline part.
    pub line_break: bool,
}

/// Where the cursor goes when an inline session ends: the footer is cleared, and the cursor goes
/// below the inline part, for which the terminal scrolls if the part ends at its bottom.
pub fn part(area_bottom: u16, terminal_height: u16) -> (parting: Parting)
    ensures
        parting.cleared_row == (if area_bottom == 0 {
            0
        } else {
            area_bottom - 1
        }),
        parting.line_break == (area_bottom >= terminal_height),
        parting.cursor_row == (if area_bottom < terminal_height {
            area_bottom as int
        } else if terminal_height == 0 {
            0
        } else {
            terminal_height - 1
        }),
{
    let cleared_row: u16 = area_bottom.saturating_sub(1);
    if area_bottom < terminal_height {
        Parting { cleared_row, cursor_row: area_bottom, line_break: false }
    } else {
        Parting { cleared_row, cursor_row: terminal_height.saturating_sub(1), line_break: true }
    }
}

/// A screen change is stable: once it is made, nothing but a resize with the height that is
/// already there is asked for.
pub proof fn law_screen_change_settles(
    inline_rows: Option<u16>,
    show_panel: bool,
    history_requires_alternate_screen: bool,
    inline: bool,
    resize_inline: bool,
    in_alternate_screen: bool,
)
    requires
        inline == !in_alternate_screen,
    ensures
        ({
            let change = screen_change(
                inline_rows,
                show_panel,
                history_requires_alternate_screen,
                true,
                inline,
                resize_inline,
                in_alternate_screen,
            );
            let now_alternate = match change {
                ScreenChange::Enter => true,
                ScreenChange::Leave(_) => false,
                _ => in_alternate_screen,
            };
            screen_change(
                inline_rows,
                show_panel,
                history_requires_alternate_screen,
                true,
                !now_alternate,
                false,
                now_alternate,
            ) == ScreenChange::Stay
        }),
{
}

/// A session that started in the alternate screen stays there.
pub proof fn law_alternate_sessions_stay(
    inline_rows: Option<u16>,
    show_panel: bool,
    history_requires_alternate_screen: bool,
    inline: bool,
    resize_inline: bool,
    in_alternate_screen: bool,
)
    ensures
        screen_change(
            inline_rows,
            show_panel,
            history_requires_alternate_screen,
            false,
            inline,
            resize_inline,
            in_alternate_screen,
        ) == ScreenChange::Stay,
{
}

/// Half-screen mode is never driven into the alternate screen by its history, and takes no more
/// than half of the terminal.
pub proof fn law_half_mode_stays_inline(terminal_height: u16, commits: usize)
    ensures
        inline_rows(Screen::Half, terminal_height, commits) is Some,
        inline_rows(Screen::Half, terminal_height, commits).unwrap() <= half_of(terminal_height),
{
}

/// In automatic mode a history that outgrew the main screen does not fit again by growing.
pub proof fn law_growing_histories_stay_alternate(terminal_height: u16, fewer: usize, more: usize)
    requires
        fewer <= more,
        inline_rows(Screen::Auto, terminal_height, fewer) is None,
    ensures
        inline_rows(Screen::Auto, terminal_height, more) is None,
{
}

} // verus!
