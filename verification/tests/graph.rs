//! The interactive commit graph.

use std::time::Duration;

use gitcore::changes::actor_bytes;
use gitcore::changes::changes_focusable;
use gitcore::changes::changes_of;
use gitcore::changes::compared_parent;
use gitcore::changes::describe;
use gitcore::changes::Author;
use gitcore::changes::ChangeKind;
use gitcore::changes::Changes;
use gitcore::changes::ComparedParent;
use gitcore::changes::PathChange;
use gitcore::changes::TreeChange;
use gitcore::frame::keep_changes;
use gitcore::frame::keep_message;
use gitcore::frame::plan_frame;
use gitcore::frame::repository_source;
use gitcore::frame::viewport_rows;
use gitcore::frame::RepositorySource;
use gitcore::keys::action;
use gitcore::keys::retains_fill_repository;
use gitcore::keys::Action;
use gitcore::keys::KeyCode;
use gitcore::keys::KeyEvent;
use gitcore::keys::KeyEventKind;
use gitcore::keys::KeyModifiers;
use gitcore::oid::EntryKind;
use gitcore::oid::EntryMode;
use gitcore::oid::ObjectId;
use gitcore::screen::commits_to_count;
use gitcore::screen::half_height;
use gitcore::screen::history_needs_alternate_screen;
use gitcore::screen::inline_height;
use gitcore::screen::needs_alternate_screen;
use gitcore::screen::part;
use gitcore::screen::plan_screen;
use gitcore::screen::should_switch_screen;
use gitcore::screen::Parting;
use gitcore::screen::Screen;
use gitcore::screen::ScreenChange;
use gitcore::session::hidden_revisions;
use gitcore::session::poll_timeout;
use gitcore::session::prepare_inline_exit;
use gitcore::session::should_draw;
use gitcore::session::verification_results;
use gitcore::session::App;
use gitcore::session::Command;
use gitcore::session::CommitRow;
use gitcore::session::Effect;
use gitcore::session::Ending;
use gitcore::session::Event;
use gitcore::session::Failure;
use gitcore::session::HistoryPoll;
use gitcore::session::Input;
use gitcore::session::Poll;
use gitcore::session::Session;
use gitcore::session::State;
use gitcore::session::EVENT_BATCH_SIZE;
use gitcore::session::FRAME_INTERVAL;

const NONE: KeyModifiers = KeyModifiers {
    control: false,
    shift: false,
};
const CONTROL: KeyModifiers = KeyModifiers {
    control: true,
    shift: false,
};
const SHIFT: KeyModifiers = KeyModifiers {
    control: false,
    shift: true,
};

fn key(code: KeyCode, modifiers: KeyModifiers) -> KeyEvent {
    key_of_kind(code, modifiers, KeyEventKind::Press)
}

fn key_of_kind(code: KeyCode, modifiers: KeyModifiers, kind: KeyEventKind) -> KeyEvent {
    KeyEvent { code, modifiers, kind }
}

fn id(byte: u8) -> ObjectId {
    ObjectId::new(&[byte; 20])
}

fn nanos(duration: Duration) -> u128 {
    duration.as_nanos()
}

#[test]
fn chooses_screen_from_terminal_and_history_height() {
    assert_eq!(
        inline_height(Screen::Auto, 20, 7),
        Some(10),
        "short histories occupy only their rows, spacers, and footer"
    );
    assert_eq!(
        inline_height(Screen::Auto, 20, 8),
        Some(11),
        "spacers do not force an otherwise short history into the alternate screen"
    );
    assert_eq!(
        inline_height(Screen::Auto, 20, 10),
        None,
        "the auto cutoff remains half the terminal height"
    );
    assert_eq!(
        inline_height(Screen::Half, 21, 3),
        Some(6),
        "half mode shrinks to the rows, spacers, and footer needed by short histories"
    );
    assert_eq!(
        inline_height(Screen::Half, 21, 10),
        Some(10),
        "half mode is capped at half the terminal, rounded down"
    );
    assert_eq!(
        inline_height(Screen::Half, 21, 0),
        Some(3),
        "an empty history only needs its spacers and footer"
    );
    assert_eq!(
        inline_height(Screen::Always, 20, 0),
        None,
        "always mode uses the alternate screen"
    );
}

#[test]
fn heights_stay_within_what_terminals_can_count() {
    assert_eq!(half_height(0), 1);
    assert_eq!(half_height(1), 1);
    assert_eq!(half_height(7), 3);
    assert_eq!(inline_height(Screen::Half, u16::MAX, usize::MAX), Some(32767));
    assert_eq!(inline_height(Screen::Auto, u16::MAX, 32766), Some(32769));
    assert_eq!(commits_to_count(Screen::Always, 20), None);
    assert_eq!(commits_to_count(Screen::Auto, 20), Some(10));
    assert_eq!(commits_to_count(Screen::Half, 1), Some(1));
}

#[test]
fn switches_screens_for_inline_commit_panes_and_large_histories() {
    assert!(
        should_switch_screen(true, true, false),
        "opening the commit pane from inline mode enters the alternate screen"
    );
    assert!(
        should_switch_screen(true, false, true),
        "closing the commit pane returns to inline mode"
    );
    assert!(
        !should_switch_screen(false, true, true),
        "a session that started in the alternate screen stays there"
    );
    assert!(
        !should_switch_screen(true, true, true),
        "an already-active alternate screen is not re-entered"
    );
    assert!(!history_needs_alternate_screen(Screen::Auto, 20, 7));
    assert!(!history_needs_alternate_screen(Screen::Auto, 20, 8));
    assert!(history_needs_alternate_screen(Screen::Auto, 20, 10));
    assert!(
        needs_alternate_screen(false, false, None),
        "current terminal geometry overrides a stale history-fit flag"
    );
    assert!(
        !needs_alternate_screen(false, false, Some(11)),
        "a fitting current layout may return to inline mode"
    );
    assert!(
        !history_needs_alternate_screen(Screen::Half, 20, usize::MAX),
        "half-screen mode never switches because history grows"
    );
}

#[test]
fn plans_screen_changes_and_partings() {
    assert_eq!(plan_screen(Some(5), true, false, true, true, false, false), ScreenChange::Enter);
    assert_eq!(
        plan_screen(Some(5), false, false, true, false, false, true),
        ScreenChange::Leave(5)
    );
    assert_eq!(
        plan_screen(Some(5), false, false, true, true, true, false),
        ScreenChange::Resize(5)
    );
    assert_eq!(plan_screen(Some(5), false, false, true, true, false, false), ScreenChange::Stay);
    assert_eq!(plan_screen(None, true, true, false, false, true, false), ScreenChange::Stay);
    assert_eq!(
        part(10, 24),
        Parting {
            cleared_row: 9,
            cursor_row: 10,
            line_break: false
        }
    );
    assert_eq!(
        part(24, 24),
        Parting {
            cleared_row: 23,
            cursor_row: 23,
            line_break: true
        }
    );
    assert_eq!(
        part(0, 0),
        Parting {
            cleared_row: 0,
            cursor_row: 0,
            line_break: true
        }
    );
}

#[test]
fn maps_navigation_and_control_c() {
    assert_eq!(action(key(KeyCode::Tab, NONE)), Some(Action::ToggleChangesFocus));
    assert_eq!(action(key(KeyCode::PageUp, NONE)), Some(Action::PageUp));
    assert_eq!(action(key(KeyCode::Char('b'), CONTROL)), Some(Action::PageUp));
    assert_eq!(action(key(KeyCode::Char('f'), CONTROL)), Some(Action::PageDown));
    assert_eq!(action(key(KeyCode::Char('u'), CONTROL)), Some(Action::HalfPageUp));
    assert_eq!(action(key(KeyCode::Char('d'), CONTROL)), Some(Action::HalfPageDown));
    assert_eq!(action(key(KeyCode::Char('h'), NONE)), Some(Action::ScrollLeft));
    assert_eq!(action(key(KeyCode::Char('l'), NONE)), Some(Action::ScrollRight));
    assert_eq!(
        action(key(KeyCode::Char('g'), SHIFT)),
        Some(Action::Last),
        "terminals that report shifted letters in lowercase still map Shift-G to the first commit"
    );
    assert_eq!(action(key(KeyCode::Char('d'), NONE)), Some(Action::ToggleDate));
    assert_eq!(action(key(KeyCode::Char('e'), NONE)), Some(Action::ToggleEmail));
    assert_eq!(action(key(KeyCode::Char('n'), NONE)), Some(Action::ToggleName));
    assert_eq!(action(key(KeyCode::Char('t'), NONE)), Some(Action::ToggleTrailers));
    assert_eq!(action(key(KeyCode::Char('m'), NONE)), Some(Action::ToggleMailmap));
    assert_eq!(action(key(KeyCode::Char('r'), NONE)), Some(Action::ToggleRefs));
    assert_eq!(action(key(KeyCode::Char('v'), NONE)), Some(Action::ToggleHidden));
    assert_eq!(action(key(KeyCode::Char('s'), NONE)), Some(Action::VerifySignatures));
    assert_eq!(action(key(KeyCode::Char('['), NONE)), Some(Action::ToggleAlign));
    assert_eq!(action(key(KeyCode::Char(']'), NONE)), Some(Action::ToggleCommit));
    assert_eq!(action(key(KeyCode::Char('o'), NONE)), Some(Action::ToggleCommit));
    assert_eq!(action(key(KeyCode::Char('p'), NONE)), Some(Action::CycleChangesParent));
    assert_eq!(action(key(KeyCode::Char('c'), NONE)), Some(Action::ToggleChanges));
    assert_eq!(action(key(KeyCode::Char('Y'), SHIFT)), Some(Action::CopyAuthor));
    assert_eq!(
        action(key_of_kind(KeyCode::LeftShift, SHIFT, KeyEventKind::Press)),
        Some(Action::PreviewAuthorCopy(true))
    );
    assert_eq!(
        action(key_of_kind(KeyCode::LeftShift, NONE, KeyEventKind::Release)),
        Some(Action::PreviewAuthorCopy(false))
    );
    assert_eq!(action(key(KeyCode::Char('c'), CONTROL)), Some(Action::Quit));
    assert_eq!(action(key(KeyCode::Char('x'), NONE)), None);
}

#[test]
fn maps_the_remaining_keys() {
    assert_eq!(action(key(KeyCode::Char('q'), NONE)), Some(Action::Quit));
    assert_eq!(action(key(KeyCode::Esc, NONE)), Some(Action::Cancel));
    assert_eq!(action(key(KeyCode::Up, NONE)), Some(Action::MoveUp));
    assert_eq!(action(key(KeyCode::Char('k'), CONTROL)), Some(Action::MoveUp));
    assert_eq!(action(key(KeyCode::Char('j'), NONE)), Some(Action::MoveDown));
    assert_eq!(action(key(KeyCode::Char('g'), NONE)), Some(Action::First));
    assert_eq!(action(key(KeyCode::Home, NONE)), Some(Action::First));
    assert_eq!(action(key(KeyCode::Char('G'), SHIFT)), Some(Action::Last));
    assert_eq!(action(key(KeyCode::End, NONE)), Some(Action::Last));
    assert_eq!(action(key(KeyCode::Char('y'), SHIFT)), Some(Action::CopyAuthor));
    assert_eq!(action(key(KeyCode::Char('y'), NONE)), Some(Action::Copy));
    assert_eq!(action(key(KeyCode::Other, NONE)), None);
    assert_eq!(
        action(key_of_kind(KeyCode::Char('q'), NONE, KeyEventKind::Release)),
        None,
        "released keys do nothing"
    );
    assert_eq!(
        action(key_of_kind(KeyCode::Char('q'), NONE, KeyEventKind::Repeat)),
        Some(Action::Quit),
        "held keys do what pressed keys do"
    );
}

#[test]
fn only_visible_changes_can_take_focus() {
    assert!(!changes_focusable(None));
    assert!(!changes_focusable(Some(&Changes::default())));
    let changes = Changes {
        paths: vec![PathChange {
            kind: ChangeKind::Modified,
            source: None,
            path: b"file".to_vec(),
            lines: None,
        }],
        ..Changes::default()
    };
    assert!(changes_focusable(Some(&changes)));
}

#[test]
fn retains_the_fill_repository_only_for_repeated_viewport_navigation() {
    assert!(retains_fill_repository(KeyEventKind::Repeat, Some(Action::MoveDown), false));
    assert!(!retains_fill_repository(KeyEventKind::Repeat, Some(Action::MoveDown), true));
    assert!(!retains_fill_repository(KeyEventKind::Press, Some(Action::MoveDown), false));
    assert!(!retains_fill_repository(KeyEventKind::Release, Some(Action::MoveDown), false));
    assert!(!retains_fill_repository(
        KeyEventKind::Repeat,
        Some(Action::ScrollRight),
        false
    ));
    assert!(!retains_fill_repository(KeyEventKind::Repeat, Some(Action::ToggleDate), false));
    assert!(!retains_fill_repository(KeyEventKind::Repeat, None, false));
}

#[test]
fn prepares_a_reduced_selection_after_leaving_the_alternate_screen() {
    let mut app = App::new(1);
    app.show_commit = true;
    app.show_changes = true;
    app.changes_focused = true;

    prepare_inline_exit(&mut app);

    assert!(app.inline, "the final frame is drawn into the restored inline screen");
    assert!(
        !app.show_commit && !app.show_changes,
        "alternate-screen panels are omitted from the final frame"
    );
    assert!(!app.changes_focused, "the hidden panel no longer owns focus");
    assert!(!app.show_selection_tail, "only the left selection marker remains");
}

#[test]
fn copies_parsed_author_bytes_without_validation() {
    let author = Author {
        name: b"Author > Name".to_vec(),
        email: b"author<@example.com".to_vec(),
    };

    assert_eq!(
        actor_bytes(&author),
        b"Author > Name <author<@example.com>",
        "parsed author bytes are copied even if they aren't valid serialization tokens"
    );
}

#[test]
fn rendering_is_reactive_and_capped_while_streaming() {
    let interval = Duration::from_nanos(FRAME_INTERVAL as u64);
    assert!(
        !should_draw(false, false, nanos(Duration::MAX)),
        "clean frames are never redrawn"
    );
    assert!(
        should_draw(true, false, nanos(Duration::ZERO)),
        "idle changes redraw immediately"
    );
    assert!(
        !should_draw(true, true, nanos(interval.saturating_sub(Duration::from_nanos(1)))),
        "streaming frames wait for the 60 fps deadline"
    );
    assert!(
        should_draw(true, true, nanos(interval)),
        "streaming frames draw at the deadline"
    );
    assert_eq!(
        poll_timeout(false, 0, false, nanos(Duration::ZERO)),
        None,
        "idle waits reactively for terminal input"
    );
    assert_eq!(
        poll_timeout(true, EVENT_BATCH_SIZE, true, nanos(Duration::ZERO)),
        Some(nanos(Duration::ZERO)),
        "saturated history batches keep processing"
    );
    assert_eq!(
        poll_timeout(true, 1, true, nanos(Duration::from_millis(10))),
        Some(nanos(interval.saturating_sub(Duration::from_millis(10)))),
        "dirty streaming frames wait only until their deadline"
    );
    assert_eq!(poll_timeout(true, 1, false, 5), Some(16_666_667));
    assert_eq!(poll_timeout(true, 1, true, 20_000_000), Some(0));
}

fn added(path: &str) -> TreeChange {
    TreeChange::Addition {
        entry_mode: EntryMode::of(EntryKind::Blob),
        location: path.as_bytes().to_vec(),
    }
}

fn added_path(path: &str) -> PathChange {
    PathChange {
        kind: ChangeKind::Added,
        source: None,
        path: path.as_bytes().to_vec(),
        lines: Some((1, 0)),
    }
}

#[test]
fn loads_changes_against_each_merge_parent() {
    let root = changes_of(&vec![], 0, &vec![(added("root"), Some((1, 0)))]);
    assert_eq!(
        root,
        Changes {
            parent: None,
            paths: vec![added_path("root")],
            lines_added: 1,
            lines_removed: 0,
        },
        "root commits are compared to the empty tree"
    );

    let topic = changes_of(&vec![id(1)], 0, &vec![(added("topic"), Some((1, 0)))]);
    assert_eq!(
        topic.paths,
        [added_path("topic")],
        "single-parent changes retain diff order and status"
    );
    assert_eq!(topic.parent, None);
    assert_eq!((topic.lines_added, topic.lines_removed), (1, 0));

    let parents = vec![id(1), id(2)];
    let first_parent = changes_of(&parents, 0, &vec![(added("merged"), Some((1, 0)))]);
    assert_eq!(
        first_parent.parent,
        Some(ComparedParent {
            index: 0,
            total: 2,
            id: id(1),
        })
    );
    assert_eq!(
        first_parent.paths,
        [added_path("merged")],
        "the default merge diff compares the result to its first parent"
    );

    let second_parent = changes_of(&parents, 1, &vec![(added("main"), Some((1, 0)))]);
    assert_eq!(
        second_parent.parent,
        Some(ComparedParent {
            index: 1,
            total: 2,
            id: id(2),
        })
    );
    assert_eq!(
        second_parent.paths,
        [added_path("main")],
        "later parents can be selected independently"
    );
    assert_eq!(
        changes_of(&parents, 2, &vec![(added("merged"), Some((1, 0)))]).parent,
        first_parent.parent,
        "parent selection wraps around"
    );
}

#[test]
fn describes_every_kind_of_change() {
    let blob = EntryMode::of(EntryKind::Blob);
    let executable = EntryMode::of(EntryKind::BlobExecutable);
    let tree = EntryMode::of(EntryKind::Tree);
    let link = EntryMode::of(EntryKind::Link);
    let path = b"path".to_vec();
    let kind = |change: TreeChange| describe(&change).map(|path| path.kind);

    assert_eq!(
        kind(TreeChange::Deletion {
            entry_mode: blob,
            location: path.clone()
        }),
        Some(ChangeKind::Deleted)
    );
    assert_eq!(
        kind(TreeChange::Addition {
            entry_mode: tree,
            location: path.clone()
        }),
        None,
        "trees are not shown"
    );
    assert_eq!(
        kind(TreeChange::Modification {
            previous_entry_mode: blob,
            entry_mode: EntryMode { value: 0o100600 },
            location: path.clone()
        }),
        Some(ChangeKind::Modified),
        "only the kind of the mode matters"
    );
    assert_eq!(
        kind(TreeChange::Modification {
            previous_entry_mode: blob,
            entry_mode: executable,
            location: path.clone()
        }),
        Some(ChangeKind::TypeChanged)
    );
    assert_eq!(
        kind(TreeChange::Modification {
            previous_entry_mode: tree,
            entry_mode: link,
            location: path.clone()
        }),
        Some(ChangeKind::TypeChanged),
        "a tree that becomes something else is shown"
    );
    assert_eq!(
        kind(TreeChange::Modification {
            previous_entry_mode: tree,
            entry_mode: tree,
            location: path.clone()
        }),
        None
    );
    let rewrite = |copy: bool, source_entry_mode: EntryMode| TreeChange::Rewrite {
        source_location: b"source".to_vec(),
        source_entry_mode,
        entry_mode: blob,
        location: b"path".to_vec(),
        copy,
    };
    assert_eq!(kind(rewrite(true, blob)), Some(ChangeKind::Copied));
    assert_eq!(kind(rewrite(false, blob)), Some(ChangeKind::Renamed));
    assert_eq!(kind(rewrite(false, tree)), None);
    assert_eq!(
        describe(&rewrite(false, blob)).and_then(|path| path.source),
        Some(b"source".to_vec())
    );

    let sums = changes_of(
        &vec![],
        0,
        &vec![
            (added("a"), Some((3, 1))),
            (added("b"), None),
            (
                TreeChange::Addition {
                    entry_mode: tree,
                    location: path.clone(),
                },
                Some((100, 100)),
            ),
            (added("c"), Some((4, 2))),
        ],
    );
    assert_eq!((sums.lines_added, sums.lines_removed, sums.paths.len()), (7, 3, 3));
    assert_eq!(compared_parent(5, 3), 2);
    assert_eq!(compared_parent(5, 0), 0);
}

fn app_with_rows(count: usize) -> App {
    let mut app = App::new(2);
    app.rows = (0..count)
        .map(|index| CommitRow {
            id: id(index as u8),
            metadata_loaded: index == 1,
        })
        .collect();
    app
}

#[test]
fn frames_load_only_what_is_shown() {
    assert_eq!(viewport_rows(10, false), 9);
    assert_eq!(viewport_rows(10, true), 7);
    assert_eq!(viewport_rows(2, true), 0);

    let mut app = app_with_rows(5);
    app.offset = 1;
    let (mut message, mut changes) = (Some((id(9), vec![1])), None);
    let plan = plan_frame(&mut app, &mut message, &mut changes);
    assert_eq!((plan.start, plan.end), (1, 3));
    assert_eq!(plan.rows, [2], "the first shown commit is loaded already");
    assert!(plan.message.is_none() && plan.changes.is_none());
    assert!(message.is_none(), "messages without a pane are forgotten");
    assert!(plan.needs_repository());

    app.offset = 100;
    let plan = plan_frame(&mut app, &mut message, &mut changes);
    assert_eq!((plan.start, plan.end), (5, 5));
    assert!(!plan.needs_repository());
    assert_eq!(repository_source(false, true, true), RepositorySource::Unneeded);
    assert_eq!(repository_source(true, false, true), RepositorySource::OpenOnce);
    assert_eq!(repository_source(true, true, false), RepositorySource::OpenAndRetain);
    assert_eq!(repository_source(true, true, true), RepositorySource::Retained);
}

#[test]
fn panes_are_loaded_once_for_each_selection() {
    let mut app = app_with_rows(3);
    app.selected = Some(1);
    app.show_commit = true;
    app.show_changes = true;
    app.changes_parent = 7;
    let (mut message, mut changes) = (None, None);
    let plan = plan_frame(&mut app, &mut message, &mut changes);
    assert_eq!(plan.message, Some(id(1)));
    assert_eq!(plan.changes, Some(id(1)));
    assert_eq!(app.changes_parent, 0, "another commit is compared to its first parent");
    assert!(app.reset_changes_view);

    keep_message(&mut message, id(1), b"message".to_vec());
    let loaded = Changes::start(&vec![id(8), id(9)], 3);
    keep_changes(&mut app, &mut changes, id(1), loaded);
    assert_eq!(app.changes_parent, 1, "the parent that was compared to is remembered");

    let plan = plan_frame(&mut app, &mut message, &mut changes);
    assert!(plan.message.is_none() && plan.changes.is_none(), "nothing is loaded twice");

    app.changes_parent = 2;
    let plan = plan_frame(&mut app, &mut message, &mut changes);
    assert_eq!(plan.changes, Some(id(1)), "another parent needs other changes");
    assert_eq!(app.changes_parent, 2);

    app.selected = Some(2);
    let plan = plan_frame(&mut app, &mut message, &mut changes);
    assert_eq!(plan.changes, Some(id(2)));
    assert_eq!(app.changes_parent, 0);

    app.show_changes = false;
    plan_frame(&mut app, &mut message, &mut changes);
    assert!(changes.is_none(), "changes without a pane are forgotten");
}

fn after(session: Session, events: &[Event]) -> Session {
    events.iter().fold(session, |session, event| session.advance(*event))
}

fn waiting(session: Session) -> Session {
    after(
        session,
        &[
            Event::Done,
            Event::History(HistoryPoll::Empty),
            Event::TerminalHeight(20),
            Event::SinceDraw(0),
            Event::SinceDraw(0),
        ],
    )
}

fn pressed(code: KeyCode) -> Event {
    Event::Input(Input::Key {
        key: key(code, NONE),
        changes_visible: false,
    })
}

#[test]
fn sessions_draw_first_and_then_look_at_the_history() {
    let session = Session::start(Screen::Auto, true, false, false);
    assert_eq!(session.command(), Command::Draw);
    let session = session.advance(Event::Done);
    assert_eq!(session.command(), Command::PollHistory);
    let session = session.advance(Event::History(HistoryPoll::Decorations));
    assert_eq!(session.command(), Command::PollHistory);
    let session = session.advance(Event::History(HistoryPoll::Empty));
    assert_eq!(session.command(), Command::MeasureTerminal);
    let session = session.advance(Event::TerminalHeight(20));
    assert_eq!(session.command(), Command::ReadClock);
    let early = session.clone().advance(Event::SinceDraw(0));
    assert_eq!(early.command(), Command::ReadClock, "streaming frames wait");
    assert_eq!(
        early.advance(Event::SinceDraw(6_666_667)).command(),
        Command::AwaitInput(Some(10_000_000))
    );
    let due = session.advance(Event::SinceDraw(FRAME_INTERVAL));
    assert_eq!(due.command(), Command::Draw);
    assert!(!due.advance(Event::Done).dirty);
}

#[test]
fn batches_of_messages_end() {
    let mut session = Session::start(Screen::Auto, true, false, false).advance(Event::Done);
    for _ in 0..EVENT_BATCH_SIZE {
        assert_eq!(session.command(), Command::PollHistory);
        session = session.advance(Event::History(HistoryPoll::Cancelled));
    }
    assert_eq!(session.command(), Command::MeasureTerminal);
    let session = after(
        session,
        &[Event::TerminalHeight(20), Event::SinceDraw(0), Event::SinceDraw(0)],
    );
    assert_eq!(session.command(), Command::AwaitInput(Some(0)));
}

#[test]
fn keys_lead_to_effects_and_urgent_frames() {
    let session = waiting(Session::start(Screen::Auto, true, false, false));
    assert_eq!(session.command(), Command::AwaitInput(Some(FRAME_INTERVAL)));
    let session = session.advance(pressed(KeyCode::Char('s')));
    assert_eq!(session.command(), Command::Update(Action::VerifySignatures));
    let session = after(session, &[Event::Done, Event::Effect(Effect::VerifySignatures)]);
    assert_eq!(session.command(), Command::Perform(Effect::VerifySignatures));
    let session = after(
        session,
        &[Event::Done, Event::NoMoreEffects, Event::TerminalHeight(20)],
    );
    assert_eq!(session.command(), Command::PollVerification);
    let stopped = session.clone().advance(Event::Verification(Poll::Disconnected));
    assert_eq!(
        stopped.command(),
        Command::End(Ending::Failed(Failure::VerificationStopped))
    );
    let session = session.advance(Event::Verification(Poll::Ready));
    assert_eq!(session.command(), Command::Draw, "what a key did is drawn at once");
    assert!(!session.verifying);
    let session = session.advance(Event::Done);
    assert_eq!(session.command(), Command::PollHistory);
    assert!(!session.dirty && !session.urgent);
}

#[test]
fn keys_without_meaning_are_passed_over() {
    let session = waiting(Session::start(Screen::Auto, true, false, false));
    assert_eq!(
        session.clone().advance(pressed(KeyCode::Char('x'))).command(),
        Command::PollHistory
    );
    assert_eq!(
        session.clone().advance(pressed(KeyCode::Tab)).command(),
        Command::PollHistory,
        "changes that aren't shown can't take the focus"
    );
    let lost = session.advance(Event::Input(Input::FocusLost));
    assert_eq!(
        lost.command(),
        Command::UpdateQuietly(Action::PreviewAuthorCopy(false))
    );
    let lost = lost.advance(Event::Done);
    assert_eq!(lost.command(), Command::Draw);
    let lost = waiting(lost);
    assert_eq!(
        lost.clone().advance(pressed(KeyCode::Char('q'))).command(),
        Command::PollHistory,
        "keys without the focus do nothing"
    );
    let gained = waiting_again(lost.advance(Event::Input(Input::FocusGained)));
    assert_eq!(
        gained.advance(pressed(KeyCode::Char('q'))).command(),
        Command::Update(Action::Quit)
    );
}

fn waiting_again(session: Session) -> Session {
    after(
        session,
        &[
            Event::History(HistoryPoll::Empty),
            Event::TerminalHeight(20),
            Event::SinceDraw(0),
            Event::SinceDraw(0),
        ],
    )
}

#[test]
fn growing_histories_move_to_the_alternate_screen_and_quitting_returns() {
    let mut session = Session::start(Screen::Auto, true, false, false).advance(Event::Done);
    session.app.rows = app_with_rows(10).rows;
    let session = after(
        session,
        &[
            Event::History(HistoryPoll::Commits { terminal_height: 20 }),
            Event::History(HistoryPoll::Empty),
            Event::TerminalHeight(20),
        ],
    );
    assert_eq!(session.command(), Command::ChangeScreen(ScreenChange::Enter));
    let session = session.advance(Event::Done);
    assert!(session.in_alternate_screen && !session.app.inline);
    let session = after(
        session,
        &[
            Event::SinceDraw(0),
            Event::SinceDraw(0),
            pressed(KeyCode::Char('q')),
            Event::Done,
            Event::Effect(Effect::Quit),
        ],
    );
    assert_eq!(session.command(), Command::LeaveAlternateScreen);
    let session = session.advance(Event::Done);
    assert_eq!(session.command(), Command::Draw);
    assert!(session.app.inline && !session.app.show_selection_tail);
    let session = session.advance(Event::Done);
    assert_eq!(session.command(), Command::End(Ending::Finished(None)));
    assert_eq!(
        session.advance(Event::Failed).command(),
        Command::End(Ending::Finished(None)),
        "what is over stays over"
    );
}

#[test]
fn sessions_end_with_the_lanes_if_asked_to() {
    let mut session = Session::start(Screen::Always, false, true, true);
    assert!(session.app.has_hidden_filter);
    session = session.advance(Event::Done);
    session.app.state = State::Computing;
    let session = after(
        session,
        &[
            Event::History(HistoryPoll::Complete { terminal_height: 20 }),
            Event::LanesStarted(true),
            Event::History(HistoryPoll::Disconnected),
            Event::TerminalHeight(20),
            Event::SinceDraw(0),
            Event::SinceDraw(0),
            Event::Input(Input::TimedOut),
        ],
    );
    assert_eq!(session.command(), Command::PollLanes);
    assert_eq!(
        session.clone().advance(Event::Lanes(Poll::Disconnected)).command(),
        Command::End(Ending::Failed(Failure::LanesStopped))
    );
    let mut session = session;
    session.app.lane_time = Some(5);
    let session = session.advance(Event::Lanes(Poll::Ready));
    assert_eq!(session.command(), Command::End(Ending::Finished(Some(5))));
}

#[test]
fn whole_histories_are_judged_before_their_lanes_are_begun() {
    let mut session = Session::start(Screen::Auto, true, false, false).advance(Event::Done);
    session.app.rows = vec![
        CommitRow {
            id: id(1),
            metadata_loaded: true,
        };
        10
    ];
    let mut session = session.advance(Event::History(HistoryPoll::Complete { terminal_height: 20 }));
    assert_eq!(session.command(), Command::StartLanes);
    assert!(session.history_requires_alternate_screen);
    session.app.rows.clear();
    let session = session.advance(Event::LanesStarted(true));
    assert!(session.computing_lanes && session.history_requires_alternate_screen);
    assert_eq!(session.command(), Command::PollHistory);
}

#[test]
fn failures_end_sessions() {
    let session = Session::start(Screen::Always, false, false, false).advance(Event::Done);
    assert_eq!(
        session
            .clone()
            .advance(Event::History(HistoryPoll::Disconnected))
            .command(),
        Command::End(Ending::Failed(Failure::HistoryStopped)),
        "a history that is still loading must not stop"
    );
    assert_eq!(
        session.advance(Event::Failed).command(),
        Command::End(Ending::Failed(Failure::Operation))
    );
    assert_eq!(
        Failure::HistoryStopped.message().as_deref(),
        Some("history worker stopped unexpectedly")
    );
    assert_eq!(
        Failure::LanesStopped.message().as_deref(),
        Some("lane worker stopped unexpectedly")
    );
    assert_eq!(
        Failure::VerificationStopped.message().as_deref(),
        Some("signature verification worker stopped unexpectedly")
    );
    assert_eq!(Failure::Operation.message(), None);
}

#[test]
fn reloading_and_verifying_use_what_was_asked_for() {
    let hide = vec![b"main".to_vec()];
    assert!(hidden_revisions(true, &hide).is_empty());
    assert_eq!(hidden_revisions(false, &hide), hide);

    let results = verification_results(&vec![id(1), id(2)], &vec![Err(())]);
    assert_eq!(results, [(id(1), false), (id(2), false)]);
}
