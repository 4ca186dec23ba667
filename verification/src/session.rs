//! A session with the commit graph: what happens next, from what has happened.

use vstd::prelude::*;

use crate::bytes::copy_list;
use crate::bytes::views;
use crate::keys::action;
use crate::keys::action_of;
use crate::keys::moves_viewport;
use crate::keys::retains_fill_repository;
use crate::keys::Action;
use crate::keys::KeyEvent;
use crate::keys::KeyEventKind;
use crate::oid::ObjectId;
use crate::screen::half_of;
use crate::screen::history_needs_alternate_screen;
use crate::screen::inline_height;
use crate::screen::inline_rows;
use crate::screen::plan_screen;
use crate::screen::screen_change;
use crate::screen::Screen;
use crate::screen::ScreenChange;
use crate::signature::Outcome;

verus! {

/// How many messages about the history are taken in before the screen is looked after again.
pub const EVENT_BATCH_SIZE: usize = 256;

/// The time between two frames while something is streaming in, in nanoseconds.
pub const FRAME_INTERVAL: u128 = 16_666_667;

/// How far the history has come.
#[derive(Clone, Copy, Debug, Eq, PartialEq, Structural)]
pub enum State {
    /// Commits are coming in.
    Loading,
    /// The history is asked to stop.
    Cancelling,
    /// The lanes of the graph are being computed.
    Computing,
    /// Everything is there.
    Complete,
    /// The history has stopped early.
    Cancelled,
}

/// A commit in the graph.
#[derive(Clone, Debug, Eq, PartialEq)]
pub struct CommitRow {
    /// Its id.
    pub id: ObjectId,
    /// Whether all that is shown of it is loaded.
    pub metadata_loaded: bool,
}

/// What is shown of the history, and how.
#[derive(Clone, Debug, Eq, PartialEq)]
pub struct App {
    /// The commits.
    pub rows: Vec<CommitRow>,
    /// The selected commit.
    pub selected: Option<usize>,
    /// The first commit that is shown.
    pub offset: usize,
    /// How many commits can be shown.
    pub viewport_rows: usize,
    /// Whether the graph is shown in the main screen.
    pub inline: bool,
    /// Whether some commits were asked to be hidden.
    pub has_hidden_filter: bool,
    /// Whether the pane with the commit is shown.
    pub show_commit: bool,
    /// Whether the pane with the changes is shown.
    pub show_changes: bool,
    /// Whether the pane with the changes takes the keys.
    pub changes_focused: bool,
    /// The parent that changes are compared to.
    pub changes_parent: usize,
    /// Whether the pane with the changes has to be shown from its beginning again.
    pub reset_changes_view: bool,
    /// Whether the selection is marked on its right side, too.
    pub show_selection_tail: bool,
    /// How far the history has come.
    pub state: State,
    /// How long the computation of the lanes took, in nanoseconds.
    pub lane_time: Option<u128>,
}

impl App {
    /// An empty history that is about to be loaded.
    pub fn new(viewport_rows: usize) -> (app: App)
        ensures
            app.rows@.len() == 0,
            app.selected is None,
            app.offset == 0,
            app.viewport_rows == viewport_rows,
            !app.inline,
            !app.has_hidden_filter,
            !app.show_commit,
            !app.show_changes,
            !app.changes_focused,
            app.changes_parent == 0,
            !app.reset_changes_view,
            app.show_selection_tail,
            app.state == State::Loading,
            app.lane_time is None,
    {
        App {
            rows: Vec::new(),
            selected: None,
            offset: 0,
            viewport_rows,
            inline: false,
            has_hidden_filter: false,
            show_commit: false,
            show_changes: false,
            changes_focused: false,
            changes_parent: 0,
            reset_changes_view: false,
            show_selection_tail: true,
            state: State::Loading,
            lane_time: None,
        }
    }
}

/// What is left of the panes and the selection when an inline session ends.
pub open spec fn reduced(app: App) -> App {
    App {
        inline: true,
        show_commit: false,
        show_changes: false,
        changes_focused: false,
        reset_changes_view: true,
        show_selection_tail: false,
        ..app
    }
}

/// Hides the panes and all but the left mark of the selection for the last frame of an inline
/// session.
pub fn prepare_inline_exit(app: &mut App)
    ensures
        *final(app) == reduced(*old(app)),
{
    app.inline = true;
    app.show_commit = false;
    app.show_changes = false;
    app.changes_focused = false;
    app.reset_changes_view = true;
    app.show_selection_tail = false;
}

/// Whether a frame is due: never without a change, and not before its time while something is
/// streaming in.
pub open spec fn frame_due(dirty: bool, streaming: bool, since_draw: u128) -> bool {
    dirty && (!streaming || since_draw >= FRAME_INTERVAL)
}

/// How long to wait for input: for any time if nothing is streaming in, and otherwise not past the
/// next frame, or not at all if there may be more messages already.
pub open spec fn input_timeout(
    streaming: bool,
    events: usize,
    dirty: bool,
    since_draw: u128,
) -> Option<u128> {
    if !streaming {
        None
    } else if events == EVENT_BATCH_SIZE {
        Some(0)
    } else if !dirty {
        Some(FRAME_INTERVAL)
    } else if since_draw >= FRAME_INTERVAL {
        Some(0)
    } else {
        Some((FRAME_INTERVAL - since_draw) as u128)
    }
}

/// Whether a frame is due.
pub fn should_draw(dirty: bool, streaming: bool, since_draw: u128) -> (draw: bool)
    ensures
        draw == frame_due(dirty, streaming, since_draw),
{
    dirty && (!streaming || since_draw >= FRAME_INTERVAL)
}

/// How long to wait for input, in nanoseconds, or nothing to wait for any time.
pub fn poll_timeout(streaming: bool, events: usize, dirty: bool, since_draw: u128) -> (timeout:
    Option<u128>)
    ensures
        timeout == input_timeout(streaming, events, dirty, since_draw),
{
    if !streaming {
        None
    } else if events == EVENT_BATCH_SIZE {
        Some(0)
    } else if dirty {
        Some(FRAME_INTERVAL.saturating_sub(since_draw))
    } else {
        Some(FRAME_INTERVAL)
    }
}

/// Why a session ended early.
#[derive(Clone, Copy, Debug, Eq, PartialEq, Structural)]
pub enum Failure {
    /// What the session had asked for failed.
    Operation,
    /// The signature verification ended without results.
    VerificationStopped,
    /// The computation of the lanes ended without a result.
    LanesStopped,
    /// The history ended before it was complete.
    HistoryStopped,
}

impl Failure {
    /// What the failure says, apart from a failed operation, which speaks for itself.
    pub open spec fn text(self) -> Option<Seq<char>> {
        match self {
            Failure::Operation => None,
            Failure::VerificationStopped => Some(
                "signature verification worker stopped unexpectedly"@,
            ),
            Failure::LanesStopped => Some("lane worker stopped unexpectedly"@),
            Failure::HistoryStopped => Some("history worker stopped unexpectedly"@),
        }
    }

    /// What the failure says, apart from a failed operation, which speaks for itself.
    pub fn message(self) -> (text: Option<String>)
        ensures
            match text {
                Some(text) => self.text() == Some(text@),
                None => self.text() is None,
            },
    {
        match self {
            Failure::Operation => None,
            Failure::VerificationStopped => Some(
                "signature verification worker stopped unexpectedly".to_owned(),
            ),
            Failure::LanesStopped => Some("lane worker stopped unexpectedly".to_owned()),
            Failure::HistoryStopped => Some("history worker stopped unexpectedly".to_owned()),
        }
    }
}

/// How a session ended.
#[derive(Clone, Copy, Debug, Eq, PartialEq, Structural)]
pub enum Ending {
    /// As it should, with the time that the computation of the lanes took if the session was to
    /// end with it.
    Finished(Option<u128>),
    /// Early.
    Failed(Failure),
}

/// What came of looking for the result of a worker.
#[derive(Clone, Copy, Debug, Eq, PartialEq, Structural)]
pub enum Poll {
    /// The result is there, and the view of the history has taken it in.
    Ready,
    /// There is no result yet.
    Empty,
    /// There will be no result.
    Disconnected,
}

/// What came of looking for a message about the history. The view of the history has taken the
/// message in.
#[derive(Clone, Copy, Debug, Eq, PartialEq, Structural)]
pub enum HistoryPoll {
    /// Names for commits.
    Decorations,
    /// More commits, and the height of the terminal.
    Commits { terminal_height: u16 },
    /// There are no more commits; with the height of the terminal.
    Complete { terminal_height: u16 },
    /// The history has stopped as it was asked to.
    Cancelled,
    /// There is no message yet.
    Empty,
    /// There will be no message any more.
    Disconnected,
}

/// What the terminal reported.
#[derive(Clone, Copy, Debug, Eq, PartialEq, Structural)]
pub enum Input {
    /// Something happened to a key while changes were shown, or not.
    Key { key: KeyEvent, changes_visible: bool },
    FocusLost,
    FocusGained,
    Resize,
    /// Anything else.
    Other,
    /// Nothing in the time given.
    TimedOut,
}

/// What an action asks for beyond the view of the history.
#[derive(Clone, Copy, Debug, Eq, PartialEq, Structural)]
pub enum Effect {
    /// Stop the history.
    Cancel,
    /// Copy the id of a commit.
    CopyId,
    /// Copy the author of a commit.
    CopyAuthor,
    /// Stop the history and start it again, with or without the commits that are hidden.
    Reload { show_hidden: bool },
    /// Verify signatures.
    VerifySignatures,
    /// End the session.
    Quit,
}

/// What happened.
#[derive(Clone, Copy, Debug, Eq, PartialEq, Structural)]
pub enum Event {
    /// What was asked for is done.
    Done,
    /// What was asked for failed.
    Failed,
    Verification(Poll),
    Lanes(Poll),
    History(HistoryPoll),
    /// Whether the computation of the lanes was begun, which it is if there is anything to compute.
    LanesStarted(bool),
    TerminalHeight(u16),
    /// How long ago the last frame was drawn, in nanoseconds.
    SinceDraw(u128),
    Input(Input),
    Effect(Effect),
    NoMoreEffects,
}

/// What the session asks for.
#[derive(Clone, Copy, Debug, Eq, PartialEq, Structural)]
pub enum Command {
    /// Draw a frame.
    Draw,
    /// Look for the results of the signature verification.
    PollVerification,
    /// Look for the result of the computation of the lanes.
    PollLanes,
    /// Look for a message about the history.
    PollHistory,
    /// Begin the computation of the lanes, if there is anything to compute.
    StartLanes,
    /// Find out how high the terminal is.
    MeasureTerminal,
    /// Change the screen.
    ChangeScreen(ScreenChange),
    /// Find out how long ago the last frame was drawn.
    ReadClock,
    /// Wait for input for as long as given, in nanoseconds, or for any time.
    AwaitInput(Option<u128>),
    /// Apply an action to the view of the history and keep what else it asks for.
    Update(Action),
    /// Apply an action to the view of the history and forget what else it asks for.
    UpdateQuietly(Action),
    /// Name the next thing that the action asked for.
    NextEffect,
    /// Do what the action asked for.
    Perform(Effect),
    /// Leave the alternate screen for good.
    LeaveAlternateScreen,
    /// The session is over.
    End(Ending),
}

/// Where the session goes on once the screen is right.
#[derive(Clone, Copy, Debug, Eq, PartialEq, Structural)]
pub enum AfterScreen {
    /// With the frame, after the given number of messages.
    Frame { events: usize },
    /// With the next turn.
    Turn,
}

/// Where a session stands: what it has asked for, and what it keeps in mind until that is there.
#[derive(Clone, Copy, Debug, Eq, PartialEq, Structural)]
pub enum Phase {
    /// The first frame is drawn.
    Opening,
    /// The results of the signature verification are looked for.
    Verification,
    /// The result of the computation of the lanes is looked for.
    Lanes,
    /// A frame that can't wait is drawn.
    UrgentFrame,
    /// Messages about the history are taken in.
    History { events: usize, resize_inline: bool },
    /// The computation of the lanes is begun after the last message about the history, which is
    /// counted in.
    StartingLanes { events: usize },
    /// The terminal is measured to find the right screen.
    Measuring { resize_inline: bool, after: AfterScreen },
    /// The screen changes.
    Changing { change: ScreenChange, after: AfterScreen },
    /// The clock is read to find out whether a frame is due.
    Pacing { streaming: bool, events: usize },
    /// A frame that is due is drawn.
    Frame { streaming: bool, events: usize },
    /// The clock is read to find out how long to wait for input.
    Timing { streaming: bool, events: usize },
    /// Input is waited for.
    Waiting { timeout: Option<u128> },
    /// The preview of the author ends as the terminal lost its focus.
    Quieting,
    /// An action is applied.
    Updating { action: Action },
    /// What the action asked for is gone through.
    Effects,
    /// Something that the action asked for is done.
    Performing { effect: Effect },
    /// The alternate screen is left before the end.
    Leaving { ending: Ending },
    /// The last frame is drawn.
    LastFrame,
    /// The session is over.
    Over { ending: Ending },
}

impl Phase {
    /// What the session has asked for.
    pub open spec fn command(self) -> Command {
        match self {
            Phase::Opening => Command::Draw,
            Phase::Verification => Command::PollVerification,
            Phase::Lanes => Command::PollLanes,
            Phase::UrgentFrame => Command::Draw,
            Phase::History { .. } => Command::PollHistory,
            Phase::StartingLanes { .. } => Command::StartLanes,
            Phase::Measuring { .. } => Command::MeasureTerminal,
            Phase::Changing { change, .. } => Command::ChangeScreen(change),
            Phase::Pacing { .. } => Command::ReadClock,
            Phase::Frame { .. } => Command::Draw,
            Phase::Timing { .. } => Command::ReadClock,
            Phase::Waiting { timeout } => Command::AwaitInput(timeout),
            Phase::Quieting => Command::UpdateQuietly(Action::PreviewAuthorCopy(false)),
            Phase::Updating { action } => Command::Update(action),
            Phase::Effects => Command::NextEffect,
            Phase::Performing { effect } => Command::Perform(effect),
            Phase::Leaving { .. } => Command::LeaveAlternateScreen,
            Phase::LastFrame => Command::Draw,
            Phase::Over { ending } => Command::End(ending),
        }
    }
}

/// A session with the commit graph.
#[derive(Clone, Debug, Eq, PartialEq)]
pub struct Session {
    /// How the terminal is used.
    pub screen: Screen,
    /// Whether the session began in the main screen.
    pub started_inline: bool,
    /// Whether the session ends when the lanes are computed.
    pub quit_on_finish: bool,
    /// What is shown of the history.
    pub app: App,
    /// Whether signatures are being verified.
    pub verifying: bool,
    /// Whether lanes are being computed.
    pub computing_lanes: bool,
    /// Whether anything changed since the last frame.
    pub dirty: bool,
    /// Whether the next frame can't wait.
    pub urgent: bool,
    /// Whether the history has outgrown the main screen.
    pub history_requires_alternate_screen: bool,
    /// Whether the terminal has the focus.
    pub focused: bool,
    /// Whether the session has changed from the main screen to the alternate screen.
    pub in_alternate_screen: bool,
    /// Whether the repository that fills in visible commits is kept open.
    pub retain_repository: bool,
    /// Where the session stands.
    pub phase: Phase,
}

impl Session {
    /// Whether anything is streaming in.
    pub open spec fn is_streaming(self) -> bool {
        self.verifying || match self.app.state {
            State::Loading | State::Cancelling | State::Computing => true,
            _ => false,
        }
    }

    /// The session at the beginning of a turn: first the workers are asked, then an urgent frame is
    /// drawn, and only then the history is looked at.
    #[verifier::opaque]
    pub open spec fn at_turn(self) -> Session {
        if self.verifying {
            Session { phase: Phase::Verification, ..self }
        } else {
            self.after_verification()
        }
    }

    /// The session in a turn once the signature verification was looked at.
    #[verifier::opaque]
    pub open spec fn after_verification(self) -> Session {
        if self.computing_lanes {
            Session { phase: Phase::Lanes, ..self }
        } else {
            self.after_lanes()
        }
    }

    /// The session in a turn once the workers were looked at.
    #[verifier::opaque]
    pub open spec fn after_lanes(self) -> Session {
        if self.urgent {
            Session { phase: Phase::UrgentFrame, ..self }
        } else {
            Session { phase: Phase::History { events: 0, resize_inline: false }, ..self }
        }
    }

    /// The session that ends, with the alternate screen still to be left.
    #[verifier::opaque]
    pub open spec fn ending(self, ending: Ending) -> Session {
        if self.in_alternate_screen {
            Session { phase: Phase::Leaving { ending }, ..self }
        } else {
            self.restored(ending)
        }
    }

    /// The session that ends on its first screen: an inline session that was quit shows a last
    /// frame with less in it.
    #[verifier::opaque]
    pub open spec fn restored(self, ending: Ending) -> Session {
        if ending == Ending::Finished(None) && self.started_inline {
            Session { app: reduced(self.app), phase: Phase::LastFrame, ..self }
        } else {
            Session { phase: Phase::Over { ending }, ..self }
        }
    }

    /// The session that goes on as the screen is right.
    #[verifier::opaque]
    pub open spec fn on_right_screen(self, after: AfterScreen) -> Session {
        match after {
            AfterScreen::Frame { events } => Session {
                phase: Phase::Pacing { streaming: self.is_streaming(), events },
                ..self
            },
            AfterScreen::Turn => self.at_turn(),
        }
    }

    /// The session after one message about the history, counted in.
    #[verifier::opaque]
    pub open spec fn after_message(self, events: usize, resize_inline: bool) -> Session {
        if events < EVENT_BATCH_SIZE {
            Session { phase: Phase::History { events, resize_inline }, ..self }
        } else {
            Session {
                phase: Phase::Measuring { resize_inline, after: AfterScreen::Frame { events } },
                ..self
            }
        }
    }

    /// The session after looking for a message about the history.
    #[verifier::opaque]
    pub open spec fn after_history(
        self,
        events: usize,
        resize_inline: bool,
        poll: HistoryPoll,
    ) -> Session {
        let measuring = Session {
            phase: Phase::Measuring { resize_inline, after: AfterScreen::Frame { events } },
            ..self
        };
        let counted = (events + 1) as usize;
        match poll {
            HistoryPoll::Empty => measuring,
            HistoryPoll::Disconnected => match self.app.state {
                State::Computing | State::Complete | State::Cancelled => measuring,
                _ => self.ending(Ending::Failed(Failure::HistoryStopped)),
            },
            HistoryPoll::Decorations | HistoryPoll::Cancelled => Session {
                dirty: true,
                ..self
            }.after_message(counted, resize_inline),
            HistoryPoll::Commits { terminal_height } => Session {
                dirty: true,
                history_requires_alternate_screen: self.history_requires_alternate_screen || (
                self.screen == Screen::Auto && self.app.rows@.len() >= half_of(terminal_height)),
                ..self
            }.after_message(counted, resize_inline),
            HistoryPoll::Complete { terminal_height } => Session {
                dirty: true,
                history_requires_alternate_screen: self.screen == Screen::Auto
                    && self.app.rows@.len() >= half_of(terminal_height),
                phase: Phase::StartingLanes { events: counted },
                ..self
            },
        }
    }

    /// The session after the computation of the lanes was begun, if there was anything to compute. The
    /// inline screen is made to fit the whole history.
    #[verifier::opaque]
    pub open spec fn after_starting(self, events: usize, started: bool) -> Session {
        Session { computing_lanes: self.computing_lanes || started, ..self }.after_message(events, true)
    }

    /// The session after the terminal was measured.
    #[verifier::opaque]
    pub open spec fn after_measuring(
        self,
        terminal_height: u16,
        resize_inline: bool,
        after: AfterScreen,
    ) -> Session {
        let change = screen_change(
            inline_rows(self.screen, terminal_height, self.app.rows@.len() as usize),
            self.app.show_commit || self.app.show_changes,
            self.history_requires_alternate_screen,
            self.started_inline,
            self.app.inline,
            resize_inline,
            self.in_alternate_screen,
        );
        match change {
            ScreenChange::Stay => self.on_right_screen(after),
            ScreenChange::Leave(_) => Session {
                in_alternate_screen: false,
                phase: Phase::Changing { change, after },
                ..self
            },
            _ => Session { phase: Phase::Changing { change, after }, ..self },
        }
    }

    /// The session after the screen changed.
    #[verifier::opaque]
    pub open spec fn after_change(self, change: ScreenChange, after: AfterScreen) -> Session {
        match change {
            ScreenChange::Enter => Session {
                in_alternate_screen: true,
                app: App { inline: false, ..self.app },
                ..self
            }.on_right_screen(after),
            ScreenChange::Leave(_) => Session {
                app: App { inline: true, ..self.app },
                ..self
            }.on_right_screen(after),
            _ => self.on_right_screen(after),
        }
    }

    /// The session after something happened to a key.
    #[verifier::opaque]
    pub open spec fn after_key(self, key: KeyEvent, changes_visible: bool) -> Session {
        if !self.focused {
            self.at_turn()
        } else {
            let action = action_of(key);
            let retaining = Session {
                retain_repository: !self.app.changes_focused && key.kind == KeyEventKind::Repeat
                    && action is Some && moves_viewport(action.unwrap()),
                ..self
            };
            if action is None || (action == Some(Action::ToggleChangesFocus) && !changes_visible) {
                retaining.at_turn()
            } else {
                Session {
                    dirty: true,
                    urgent: true,
                    phase: Phase::Updating { action: action.unwrap() },
                    ..retaining
                }
            }
        }
    }

    /// The session after input.
    #[verifier::opaque]
    pub open spec fn after_input(self, input: Input) -> Session {
        match input {
            Input::TimedOut | Input::Other => self.at_turn(),
            Input::FocusGained => Session { focused: true, ..self }.at_turn(),
            Input::Resize => Session { dirty: true, urgent: true, ..self }.at_turn(),
            Input::FocusLost => Session {
                focused: false,
                dirty: true,
                urgent: true,
                phase: Phase::Quieting,
                ..self
            },
            Input::Key { key, changes_visible } => self.after_key(key, changes_visible),
        }
    }

    /// The session after an event. An event that does not answer what was asked for changes
    /// nothing.
    pub open spec fn next(self, event: Event) -> Session {
        match (self.phase, event) {
            (Phase::Over { .. }, _) => self,
            (Phase::Leaving { ending }, Event::Failed) => Session {
                in_alternate_screen: false,
                phase: Phase::Over {
                    ending: match ending {
                        Ending::Failed(_) => ending,
                        Ending::Finished(_) => Ending::Failed(Failure::Operation),
                    },
                },
                ..self
            },
            (Phase::LastFrame, Event::Failed) => Session {
                phase: Phase::Over { ending: Ending::Failed(Failure::Operation) },
                ..self
            },
            (_, Event::Failed) => self.ending(Ending::Failed(Failure::Operation)),
            (Phase::Opening, Event::Done) => Session {
                dirty: false,
                urgent: false,
                ..self
            }.at_turn(),
            (Phase::UrgentFrame, Event::Done) => Session {
                dirty: false,
                urgent: false,
                ..self
            }.at_turn(),
            (Phase::Verification, Event::Verification(poll)) => match poll {
                Poll::Ready => Session { verifying: false, dirty: true, ..self }.after_verification(),
                Poll::Empty => self.after_verification(),
                Poll::Disconnected => self.ending(Ending::Failed(Failure::VerificationStopped)),
            },
            (Phase::Lanes, Event::Lanes(poll)) => match poll {
                Poll::Ready => {
                    let ready = Session { computing_lanes: false, dirty: true, ..self };
                    if self.quit_on_finish {
                        ready.ending(Ending::Finished(self.app.lane_time))
                    } else {
                        ready.after_lanes()
                    }
                },
                Poll::Empty => self.after_lanes(),
                Poll::Disconnected => self.ending(Ending::Failed(Failure::LanesStopped)),
            },
            (Phase::History { events, resize_inline }, Event::History(poll)) => self.after_history(
                events,
                resize_inline,
                poll,
            ),
            (Phase::StartingLanes { events }, Event::LanesStarted(started)) => self.after_starting(
                events,
                started,
            ),
            (Phase::Measuring { resize_inline, after }, Event::TerminalHeight(height)) =>
                self.after_measuring(height, resize_inline, after),
            (Phase::Changing { change, after }, Event::Done) => self.after_change(change, after),
            (Phase::Pacing { streaming, events }, Event::SinceDraw(since_draw)) => if frame_due(
                self.dirty,
                streaming,
                since_draw,
            ) {
                Session { phase: Phase::Frame { streaming, events }, ..self }
            } else {
                Session { phase: Phase::Timing { streaming, events }, ..self }
            },
            (Phase::Frame { streaming, events }, Event::Done) => Session {
                dirty: false,
                phase: Phase::Timing { streaming, events },
                ..self
            },
            (Phase::Timing { streaming, events }, Event::SinceDraw(since_draw)) => Session {
                phase: Phase::Waiting {
                    timeout: input_timeout(streaming, events, self.dirty, since_draw),
                },
                ..self
            },
            (Phase::Waiting { .. }, Event::Input(input)) => self.after_input(input),
            (Phase::Quieting, Event::Done) => self.at_turn(),
            (Phase::Updating { .. }, Event::Done) => Session { phase: Phase::Effects, ..self },
            (Phase::Effects, Event::NoMoreEffects) => Session {
                phase: Phase::Measuring { resize_inline: false, after: AfterScreen::Turn },
                ..self
            },
            (Phase::Effects, Event::Effect(effect)) => if effect == Effect::Quit {
                self.ending(Ending::Finished(None))
            } else {
                Session { phase: Phase::Performing { effect }, ..self }
            },
            (Phase::Performing { effect }, Event::Done) => Session {
                verifying: self.verifying || effect == Effect::VerifySignatures,
                phase: Phase::Effects,
                ..self
            },
            (Phase::Leaving { ending }, Event::Done) => Session {
                in_alternate_screen: false,
                ..self
            }.restored(ending),
            (Phase::LastFrame, Event::Done) => Session {
                phase: Phase::Over { ending: Ending::Finished(None) },
                ..self
            },
            _ => self,
        }
    }

    /// What every session keeps: no more messages in a batch than allowed, the alternate screen
    /// only where the session began inline, and none of it left when the session is over.
    pub open spec fn wf(self) -> bool {
        &&& self.in_alternate_screen ==> self.started_inline
        &&& match self.phase {
            Phase::History { events, .. } => events < EVENT_BATCH_SIZE,
            Phase::StartingLanes { events } => 0 < events <= EVENT_BATCH_SIZE,
            Phase::Measuring { after: AfterScreen::Frame { events }, .. } => events
                <= EVENT_BATCH_SIZE,
            Phase::Changing { change, after } => {
                &&& (after matches AfterScreen::Frame { events } ==> events <= EVENT_BATCH_SIZE)
                &&& self.started_inline
                &&& change != ScreenChange::Stay
            },
            Phase::Pacing { events, .. } => events <= EVENT_BATCH_SIZE,
            Phase::Frame { events, .. } => events <= EVENT_BATCH_SIZE && self.dirty,
            Phase::Timing { events, .. } => events <= EVENT_BATCH_SIZE,
            Phase::UrgentFrame => self.urgent,
            Phase::Leaving { .. } => self.in_alternate_screen,
            Phase::LastFrame => !self.in_alternate_screen && self.started_inline,
            Phase::Over { .. } => !self.in_alternate_screen,
            _ => true,
        }
    }

    /// A session that is about to draw its first frame.
    pub fn start(
        screen: Screen,
        started_inline: bool,
        quit_on_finish: bool,
        hides_commits: bool,
    ) -> (session: Session)
        ensures
            session.wf(),
            session.phase == Phase::Opening,
            session.screen == screen,
            session.started_inline == started_inline,
            session.quit_on_finish == quit_on_finish,
            session.app.inline == started_inline,
            session.app.has_hidden_filter == hides_commits,
            session.app.rows@.len() == 0,
            session.app.state == State::Loading,
            session.app.viewport_rows == 1,
            session.app.selected is None,
            session.app.offset == 0,
            session.app.changes_parent == 0,
            !session.app.reset_changes_view,
            session.app.lane_time is None,
            session.app.show_selection_tail,
            !session.app.show_commit && !session.app.show_changes && !session.app.changes_focused,
            !session.verifying && !session.computing_lanes,
            !session.dirty && !session.urgent,
            !session.history_requires_alternate_screen && !session.in_alternate_screen,
            session.focused,
            !session.retain_repository,
    {
        let mut app = App::new(1);
        app.inline = started_inline;
        app.has_hidden_filter = hides_commits;
        Session {
            screen,
            started_inline,
            quit_on_finish,
            app,
            verifying: false,
            computing_lanes: false,
            dirty: false,
            urgent: false,
            history_requires_alternate_screen: false,
            focused: true,
            in_alternate_screen: false,
            retain_repository: false,
            phase: Phase::Opening,
        }
    }

    /// What the session asks for.
    pub fn command(&self) -> (command: Command)
        ensures
            command == self.phase.command(),
    {
        match self.phase {
            Phase::Opening => Command::Draw,
            Phase::Verification => Command::PollVerification,
            Phase::Lanes => Command::PollLanes,
            Phase::UrgentFrame => Command::Draw,
            Phase::History { .. } => Command::PollHistory,
            Phase::StartingLanes { .. } => Command::StartLanes,
            Phase::Measuring { .. } => Command::MeasureTerminal,
            Phase::Changing { change, .. } => Command::ChangeScreen(change),
            Phase::Pacing { .. } => Command::ReadClock,
            Phase::Frame { .. } => Command::Draw,
            Phase::Timing { .. } => Command::ReadClock,
            Phase::Waiting { timeout } => Command::AwaitInput(timeout),
            Phase::Quieting => Command::UpdateQuietly(Action::PreviewAuthorCopy(false)),
            Phase::Updating { action } => Command::Update(action),
            Phase::Effects => Command::NextEffect,
            Phase::Performing { effect } => Command::Perform(effect),
            Phase::Leaving { .. } => Command::LeaveAlternateScreen,
            Phase::LastFrame => Command::Draw,
            Phase::Over { ending } => Command::End(ending),
        }
    }

    /// Whether anything is streaming in.
    fn streaming(&self) -> (streaming: bool)
        ensures
            streaming == self.is_streaming(),
    {
        self.verifying || matches!(
            self.app.state,
            State::Loading | State::Cancelling | State::Computing
        )
    }

    fn turn(self) -> (session: Session)
        ensures
            session == self.at_turn(),
    {
        proof {
            reveal(Session::at_turn);
        }
        if self.verifying {
            Session { phase: Phase::Verification, ..self }
        } else {
            self.pass_verification()
        }
    }

    fn pass_verification(self) -> (session: Session)
        ensures
            session == self.after_verification(),
    {
        proof {
            reveal(Session::after_verification);
        }
        if self.computing_lanes {
            Session { phase: Phase::Lanes, ..self }
        } else {
            self.pass_lanes()
        }
    }

    fn pass_lanes(self) -> (session: Session)
        ensures
            session == self.after_lanes(),
    {
        proof {
            reveal(Session::after_lanes);
        }
        if self.urgent {
            Session { phase: Phase::UrgentFrame, ..self }
        } else {
            Session { phase: Phase::History { events: 0, resize_inline: false }, ..self }
        }
    }

    fn end(self, ending: Ending) -> (session: Session)
        ensures
            session == self.ending(ending),
    {
        proof {
            reveal(Session::ending);
        }
        if self.in_alternate_screen {
            Session { phase: Phase::Leaving { ending }, ..self }
        } else {
            self.end_restored(ending)
        }
    }

    fn end_restored(self, ending: Ending) -> (session: Session)
        ensures
            session == self.restored(ending),
    {
        proof {
            reveal(Session::restored);
        }
        if ending == Ending::Finished(None) && self.started_inline {
            let mut app = self.app;
            prepare_inline_exit(&mut app);
            Session { app, phase: Phase::LastFrame, ..self }
        } else {
            Session { phase: Phase::Over { ending }, ..self }
        }
    }

    fn go_on(self, after: AfterScreen) -> (session: Session)
        ensures
            session == self.on_right_screen(after),
    {
        proof {
            reveal(Session::on_right_screen);
        }
        match after {
            AfterScreen::Frame { events } => {
                let streaming = self.streaming();
                Session { phase: Phase::Pacing { streaming, events }, ..self }
            },
            AfterScreen::Turn => self.turn(),
        }
    }

    fn count_message(self, events: usize, resize_inline: bool) -> (session: Session)
        ensures
            session == self.after_message(events, resize_inline),
    {
        proof {
            reveal(Session::after_message);
        }
        if events < EVENT_BATCH_SIZE {
            Session { phase: Phase::History { events, resize_inline }, ..self }
        } else {
            Session {
                phase: Phase::Measuring { resize_inline, after: AfterScreen::Frame { events } },
                ..self
            }
        }
    }

    fn take_history(self, events: usize, resize_inline: bool, poll: HistoryPoll) -> (session:
        Session)
        requires
            events < EVENT_BATCH_SIZE,
        ensures
            session == self.after_history(events, resize_inline, poll),
    {
        proof {
            reveal(Session::after_history);
        }
        let measuring = Phase::Measuring { resize_inline, after: AfterScreen::Frame { events } };
        match poll {
            HistoryPoll::Empty => Session { phase: measuring, ..self },
            HistoryPoll::Disconnected => {
                if matches!(self.app.state, State::Computing | State::Complete | State::Cancelled) {
                    Session { phase: measuring, ..self }
                } else {
                    self.end(Ending::Failed(Failure::HistoryStopped))
                }
            },
            HistoryPoll::Decorations | HistoryPoll::Cancelled => {
                let dirty = Session { dirty: true, ..self };
                dirty.count_message(events + 1, resize_inline)
            },
            HistoryPoll::Commits { terminal_height } => {
                let outgrown = history_needs_alternate_screen(
                    self.screen,
                    terminal_height,
                    self.app.rows.len(),
                );
                let grown = Session {
                    dirty: true,
                    history_requires_alternate_screen: self.history_requires_alternate_screen
                        || outgrown,
                    ..self
                };
                grown.count_message(events + 1, resize_inline)
            },
            HistoryPoll::Complete { terminal_height } => {
                let outgrown = history_needs_alternate_screen(
                    self.screen,
                    terminal_height,
                    self.app.rows.len(),
                );
                Session {
                    dirty: true,
                    history_requires_alternate_screen: outgrown,
                    phase: Phase::StartingLanes { events: events + 1 },
                    ..self
                }
            },
        }
    }

    fn take_start(self, events: usize, started: bool) -> (session: Session)
        ensures
            session == self.after_starting(events, started),
    {
        proof {
            reveal(Session::after_starting);
        }
        let computing_lanes = self.computing_lanes || started;
        let begun = Session { computing_lanes, ..self };
        begun.count_message(events, true)
    }

    fn take_height(self, terminal_height: u16, resize_inline: bool, after: AfterScreen) -> (session:
        Session)
        ensures
            session == self.after_measuring(terminal_height, resize_inline, after),
    {
        proof {
            reveal(Session::after_measuring);
        }
        let height = inline_height(self.screen, terminal_height, self.app.rows.len());
        let change = plan_screen(
            height,
            self.app.show_commit || self.app.show_changes,
            self.history_requires_alternate_screen,
            self.started_inline,
            self.app.inline,
            resize_inline,
            self.in_alternate_screen,
        );
        match change {
            ScreenChange::Stay => self.go_on(after),
            ScreenChange::Leave(_) => Session {
                in_alternate_screen: false,
                phase: Phase::Changing { change, after },
                ..self
            },
            _ => Session { phase: Phase::Changing { change, after }, ..self },
        }
    }

    fn take_change(self, change: ScreenChange, after: AfterScreen) -> (session: Session)
        ensures
            session == self.after_change(change, after),
    {
        proof {
            reveal(Session::after_change);
        }
        match change {
            ScreenChange::Enter => {
                let app = App { inline: false, ..self.app };
                let entered = Session { in_alternate_screen: true, app, ..self };
                entered.go_on(after)
            },
            ScreenChange::Leave(_) => {
                let app = App { inline: true, ..self.app };
                let left = Session { app, ..self };
                left.go_on(after)
            },
            _ => self.go_on(after),
        }
    }

    fn take_key(self, key: KeyEvent, changes_visible: bool) -> (session: Session)
        ensures
            session == self.after_key(key, changes_visible),
    {
        proof {
            reveal(Session::after_key);
        }
        if !self.focused {
            return self.turn();
        }
        let wanted = action(key);
        let retain_repository = retains_fill_repository(
            key.kind,
            wanted,
            self.app.changes_focused,
        );
        let retaining = Session { retain_repository, ..self };
        match wanted {
            None => retaining.turn(),
            Some(wanted) => {
                if wanted == Action::ToggleChangesFocus && !changes_visible {
                    retaining.turn()
                } else {
                    Session {
                        dirty: true,
                        urgent: true,
                        phase: Phase::Updating { action: wanted },
                        ..retaining
                    }
                }
            },
        }
    }

    fn take_input(self, input: Input) -> (session: Session)
        ensures
            session == self.after_input(input),
    {
        proof {
            reveal(Session::after_input);
        }
        match input {
            Input::TimedOut | Input::Other => self.turn(),
            Input::FocusGained => {
                let focused = Session { focused: true, ..self };
                focused.turn()
            },
            Input::Resize => {
                let resized = Session { dirty: true, urgent: true, ..self };
                resized.turn()
            },
            Input::FocusLost => Session {
                focused: false,
                dirty: true,
                urgent: true,
                phase: Phase::Quieting,
                ..self
            },
            Input::Key { key, changes_visible } => self.take_key(key, changes_visible),
        }
    }

    /// The session after what happened. An event that does not answer what was asked for changes
    /// nothing.
    pub fn advance(self, event: Event) -> (session: Session)
        requires
            self.wf(),
        ensures
            session == self.next(event),
            session.wf(),
    {
        proof {
            law_sessions_stay_sound(self, event);
        }
        match (self.phase, event) {
            (Phase::Over { .. }, _) => self,
            (Phase::Leaving { ending }, Event::Failed) => {
                let ending = match ending {
                    Ending::Failed(_) => ending,
                    Ending::Finished(_) => Ending::Failed(Failure::Operation),
                };
                Session { in_alternate_screen: false, phase: Phase::Over { ending }, ..self }
            },
            (Phase::LastFrame, Event::Failed) => Session {
                phase: Phase::Over { ending: Ending::Failed(Failure::Operation) },
                ..self
            },
            (_, Event::Failed) => self.end(Ending::Failed(Failure::Operation)),
            (Phase::Opening, Event::Done) | (Phase::UrgentFrame, Event::Done) => {
                let drawn = Session { dirty: false, urgent: false, ..self };
                drawn.turn()
            },
            (Phase::Verification, Event::Verification(poll)) => match poll {
                Poll::Ready => {
                    let ready = Session { verifying: false, dirty: true, ..self };
                    ready.pass_verification()
                },
                Poll::Empty => self.pass_verification(),
                Poll::Disconnected => self.end(Ending::Failed(Failure::VerificationStopped)),
            },
            (Phase::Lanes, Event::Lanes(poll)) => match poll {
                Poll::Ready => {
                    let quit = self.quit_on_finish;
                    let lane_time = self.app.lane_time;
                    let ready = Session { computing_lanes: false, dirty: true, ..self };
                    if quit {
                        ready.end(Ending::Finished(lane_time))
                    } else {
                        ready.pass_lanes()
                    }
                },
                Poll::Empty => self.pass_lanes(),
                Poll::Disconnected => self.end(Ending::Failed(Failure::LanesStopped)),
            },
            (Phase::History { events, resize_inline }, Event::History(poll)) => self.take_history(
                events,
                resize_inline,
                poll,
            ),
            (Phase::StartingLanes { events }, Event::LanesStarted(started)) => self.take_start(
                events,
                started,
            ),
            (Phase::Measuring { resize_inline, after }, Event::TerminalHeight(height)) =>
                self.take_height(height, resize_inline, after),
            (Phase::Changing { change, after }, Event::Done) => self.take_change(change, after),
            (Phase::Pacing { streaming, events }, Event::SinceDraw(since_draw)) => {
                if should_draw(self.dirty, streaming, since_draw) {
                    Session { phase: Phase::Frame { streaming, events }, ..self }
                } else {
                    Session { phase: Phase::Timing { streaming, events }, ..self }
                }
            },
            (Phase::Frame { streaming, events }, Event::Done) => Session {
                dirty: false,
                phase: Phase::Timing { streaming, events },
                ..self
            },
            (Phase::Timing { streaming, events }, Event::SinceDraw(since_draw)) => {
                let timeout = poll_timeout(streaming, events, self.dirty, since_draw);
                Session { phase: Phase::Waiting { timeout }, ..self }
            },
            (Phase::Waiting { .. }, Event::Input(input)) => self.take_input(input),
            (Phase::Quieting, Event::Done) => self.turn(),
            (Phase::Updating { .. }, Event::Done) => Session { phase: Phase::Effects, ..self },
            (Phase::Effects, Event::NoMoreEffects) => Session {
                phase: Phase::Measuring { resize_inline: false, after: AfterScreen::Turn },
                ..self
            },
            (Phase::Effects, Event::Effect(effect)) => {
                if effect == Effect::Quit {
                    self.end(Ending::Finished(None))
                } else {
                    Session { phase: Phase::Performing { effect }, ..self }
                }
            },
            (Phase::Performing { effect }, Event::Done) => Session {
                verifying: self.verifying || effect == Effect::VerifySignatures,
                phase: Phase::Effects,
                ..self
            },
            (Phase::Leaving { ending }, Event::Done) => {
                let left = Session { in_alternate_screen: false, ..self };
                left.end_restored(ending)
            },
            (Phase::LastFrame, Event::Done) => Session {
                phase: Phase::Over { ending: Ending::Finished(None) },
                ..self
            },
            _ => self,
        }
    }
}

proof fn lemma_turn_is_sound(session: Session)
    requires
        session.in_alternate_screen ==> session.started_inline,
    ensures
        session.at_turn().wf(),
        session.after_verification().wf(),
        session.after_lanes().wf(),
{
    reveal(Session::at_turn);
    reveal(Session::after_verification);
    reveal(Session::after_lanes);
}

proof fn lemma_ending_is_sound(session: Session, ending: Ending)
    requires
        session.in_alternate_screen ==> session.started_inline,
    ensures
        session.ending(ending).wf(),
        !session.in_alternate_screen ==> session.restored(ending).wf(),
{
    reveal(Session::ending);
    reveal(Session::restored);
}

proof fn lemma_right_screen_is_sound(session: Session, after: AfterScreen)
    requires
        session.in_alternate_screen ==> session.started_inline,
        after matches AfterScreen::Frame { events } ==> events <= EVENT_BATCH_SIZE,
    ensures
        session.on_right_screen(after).wf(),
{
    reveal(Session::on_right_screen);
    lemma_turn_is_sound(session);
}

proof fn lemma_history_is_sound(
    session: Session,
    events: usize,
    resize_inline: bool,
    poll: HistoryPoll,
)
    requires
        session.in_alternate_screen ==> session.started_inline,
        events < EVENT_BATCH_SIZE,
    ensures
        session.after_history(events, resize_inline, poll).wf(),
{
    reveal(Session::after_history);
    reveal(Session::after_message);
    lemma_ending_is_sound(session, Ending::Failed(Failure::HistoryStopped));
}

proof fn lemma_input_is_sound(session: Session, input: Input)
    requires
        session.in_alternate_screen ==> session.started_inline,
    ensures
        session.after_input(input).wf(),
{
    reveal(Session::after_input);
    reveal(Session::after_key);
    reveal(Session::at_turn);
    reveal(Session::after_verification);
    reveal(Session::after_lanes);
}

/// Whatever happens, a session keeps to its bounds: no batch of messages grows beyond its size, no
/// frame is drawn without need, the alternate screen is only entered by sessions that began in the
/// main screen, and it is left before such a session is over.
pub proof fn law_sessions_stay_sound(session: Session, event: Event)
    requires
        session.wf(),
    ensures
        session.next(event).wf(),
{
    match (session.phase, event) {
        (Phase::Over { .. }, _) => {},
        (_, Event::Failed) => {
            lemma_ending_is_sound(session, Ending::Failed(Failure::Operation));
        },
        (Phase::Opening, Event::Done) | (Phase::UrgentFrame, Event::Done) => {
            lemma_turn_is_sound(Session { dirty: false, urgent: false, ..session });
        },
        (Phase::Verification, Event::Verification(_)) => {
            lemma_turn_is_sound(session);
            lemma_turn_is_sound(Session { verifying: false, dirty: true, ..session });
            lemma_ending_is_sound(session, Ending::Failed(Failure::VerificationStopped));
        },
        (Phase::Lanes, Event::Lanes(_)) => {
            let ready = Session { computing_lanes: false, dirty: true, ..session };
            lemma_turn_is_sound(session);
            lemma_turn_is_sound(ready);
            lemma_ending_is_sound(ready, Ending::Finished(session.app.lane_time));
            lemma_ending_is_sound(session, Ending::Failed(Failure::LanesStopped));
        },
        (Phase::History { events, resize_inline }, Event::History(poll)) => {
            lemma_history_is_sound(session, events, resize_inline, poll);
        },
        (Phase::StartingLanes { .. }, Event::LanesStarted(_)) => {
            reveal(Session::after_starting);
            reveal(Session::after_message);
        },
        (Phase::Measuring { after, .. }, Event::TerminalHeight(_)) => {
            reveal(Session::after_measuring);
            lemma_right_screen_is_sound(session, after);
        },
        (Phase::Changing { after, .. }, Event::Done) => {
            reveal(Session::after_change);
            lemma_right_screen_is_sound(session, after);
            lemma_right_screen_is_sound(
                Session {
                    in_alternate_screen: true,
                    app: App { inline: false, ..session.app },
                    ..session
                },
                after,
            );
            lemma_right_screen_is_sound(
                Session { app: App { inline: true, ..session.app }, ..session },
                after,
            );
        },
        (Phase::Waiting { .. }, Event::Input(input)) => {
            lemma_input_is_sound(session, input);
        },
        (Phase::Quieting, Event::Done) => {
            lemma_turn_is_sound(session);
        },
        (Phase::Effects, Event::Effect(_)) => {
            lemma_ending_is_sound(session, Ending::Finished(None));
        },
        (Phase::Leaving { ending }, Event::Done) => {
            lemma_ending_is_sound(Session { in_alternate_screen: false, ..session }, ending);
        },
        _ => {},
    }
}

/// A frame without a change is never drawn, and while something is streaming in none is drawn
/// before its time.
pub proof fn law_frames_are_paced(session: Session, streaming: bool, events: usize, since_draw: u128)
    requires
        session.phase == (Phase::Pacing { streaming, events }),
    ensures
        session.next(Event::SinceDraw(since_draw)).phase is Frame <==> session.dirty && (!streaming
            || since_draw >= FRAME_INTERVAL),
{
}

/// A session that waits for input waits for any time only if nothing is streaming in, and never
/// past the time of the next frame.
pub proof fn law_waiting_ends_with_the_frame(
    session: Session,
    streaming: bool,
    events: usize,
    since_draw: u128,
)
    requires
        session.phase == (Phase::Timing { streaming, events }),
    ensures
        session.next(Event::SinceDraw(since_draw)).phase matches Phase::Waiting { timeout } && (
        timeout is None <==> !streaming) && (timeout matches Some(time) ==> time <= FRAME_INTERVAL
            && (session.dirty && since_draw < FRAME_INTERVAL && time > 0 ==> since_draw + time
            == FRAME_INTERVAL)),
{
}

/// What a key has changed is drawn before the history is looked at again: a turn goes from the workers,
/// as far as there are any, to the frame.
pub proof fn law_urgent_frames_come_first(session: Session)
    requires
        session.urgent,
    ensures
        session.at_turn().phase == (if session.verifying {
            Phase::Verification
        } else if session.computing_lanes {
            Phase::Lanes
        } else {
            Phase::UrgentFrame
        }),
        session.after_verification().phase == (if session.computing_lanes {
            Phase::Lanes
        } else {
            Phase::UrgentFrame
        }),
        session.after_lanes().phase == Phase::UrgentFrame,
{
    reveal(Session::at_turn);
    reveal(Session::after_verification);
    reveal(Session::after_lanes);
}

/// Without the focus of the terminal keys do nothing.
pub proof fn law_unfocused_keys_do_nothing(
    session: Session,
    timeout: Option<u128>,
    key: KeyEvent,
    changes_visible: bool,
)
    requires
        session.phase == (Phase::Waiting { timeout }),
        !session.focused,
    ensures
        session.next(Event::Input(Input::Key { key, changes_visible })) == session.next(
            Event::Input(Input::TimedOut),
        ),
{
    reveal(Session::after_input);
    reveal(Session::after_key);
}

/// Quitting an inline session leaves the alternate screen, if it is there, draws a last frame
/// without panes, and ends well.
pub proof fn law_quitting_leaves_a_reduced_frame(session: Session)
    requires
        session.wf(),
        session.phase == Phase::Effects,
        session.started_inline,
    ensures
        ({
            let quit = session.next(Event::Effect(Effect::Quit));
            let last = if session.in_alternate_screen {
                quit.next(Event::Done)
            } else {
                quit
            };
            &&& session.in_alternate_screen ==> quit.phase.command()
                == Command::LeaveAlternateScreen
            &&& last.phase == Phase::LastFrame
            &&& last.app == reduced(session.app)
            &&& !last.in_alternate_screen
            &&& last.next(Event::Done).phase == (Phase::Over { ending: Ending::Finished(None) })
        }),
{
    reveal(Session::ending);
    reveal(Session::restored);
}

/// A failure ends the session, and not before the alternate screen is left.
pub proof fn law_failures_restore_the_screen(session: Session)
    requires
        session.wf(),
        !(session.phase is Over || session.phase is Leaving || session.phase is LastFrame),
    ensures
        ({
            let failed = session.next(Event::Failed);
            let last = if session.in_alternate_screen {
                failed.next(Event::Done)
            } else {
                failed
            };
            &&& session.in_alternate_screen ==> failed.phase.command()
                == Command::LeaveAlternateScreen
            &&& last.phase == (Phase::Over { ending: Ending::Failed(Failure::Operation) })
            &&& !last.in_alternate_screen
        }),
{
    reveal(Session::ending);
    reveal(Session::restored);
}

/// What is over stays over.
pub proof fn law_over_is_over(session: Session, event: Event)
    requires
        session.phase is Over,
    ensures
        session.next(event) == session,
{
}

/// A session that is to end with the computation of the lanes does so, with the time it took, and not
/// before the alternate screen is left.
pub proof fn law_quits_on_finish(session: Session)
    requires
        session.wf(),
        session.phase == Phase::Lanes,
        session.quit_on_finish,
        session.app.lane_time is Some,
    ensures
        ({
            let finished = session.next(Event::Lanes(Poll::Ready));
            let last = if session.in_alternate_screen {
                finished.next(Event::Done)
            } else {
                finished
            };
            &&& session.in_alternate_screen ==> finished.phase.command()
                == Command::LeaveAlternateScreen
            &&& last.phase == (Phase::Over { ending: Ending::Finished(session.app.lane_time) })
            &&& !last.in_alternate_screen
        }),
{
    reveal(Session::ending);
    reveal(Session::restored);
}

/// The revisions to hide when the history is loaded again: none if hidden commits are to be shown.
pub fn hidden_revisions(show_hidden: bool, hide: &Vec<Vec<u8>>) -> (hidden: Vec<Vec<u8>>)
    ensures
        views(hidden@) == (if show_hidden {
            Seq::empty()
        } else {
            views(hide@)
        }),
{
    if show_hidden {
        let hidden: Vec<Vec<u8>> = Vec::new();
        assert(views(hidden@) =~= Seq::empty());
        hidden
    } else {
        copy_list(hide)
    }
}

/// Whether a commit counts as verified: only if its signature could be verified and is valid.
pub fn signature_verified(outcome: &Result<Option<Outcome>, ()>) -> (verified: bool)
    ensures
        verified == (outcome matches Ok(Some(outcome)) && outcome@.valid),
{
    match outcome {
        Ok(Some(outcome)) => outcome.is_valid(),
        _ => false,
    }
}

/// The results of a signature verification, for each commit in turn.
pub open spec fn verdicts(ids: Seq<ObjectId>, outcomes: Seq<Result<Option<Outcome>, ()>>) -> Seq<
    (Seq<u8>, bool),
> {
    Seq::new(
        ids.len(),
        |i: int|
            (
                ids[i]@,
                i < outcomes.len() && (outcomes[i] matches Ok(Some(outcome)) && outcome@.valid),
            ),
    )
}

/// What a list of results says.
pub open spec fn result_views(results: Seq<(ObjectId, bool)>) -> Seq<(Seq<u8>, bool)> {
    results.map_values(|result: (ObjectId, bool)| (result.0@, result.1))
}

/// The results of a signature verification, from what came of each commit in turn. A commit without
/// an outcome, as when the repository can't be opened, is not verified.
pub fn verification_results(ids: &Vec<ObjectId>, outcomes: &Vec<Result<Option<Outcome>, ()>>) -> (results:
    Vec<(ObjectId, bool)>)
    ensures
        result_views(results@) == verdicts(ids@, outcomes@),
{
    let mut results: Vec<(ObjectId, bool)> = Vec::new();
    let mut i: usize = 0;
    while i < ids.len()
        invariant
            i <= ids.len(),
            results@.len() == i,
            forall|k: int|
                0 <= k < i ==> (#[trigger] results@[k]).0@ == ids@[k]@ && results@[k].1 == verdicts(
                    ids@,
                    outcomes@,
                )[k].1,
        decreases ids.len() - i,
    {
        let verified = i < outcomes.len() && signature_verified(&outcomes[i]);
        results.push((ids[i].copy(), verified));
        i += 1;
    }
    assert(result_views(results@) =~= verdicts(ids@, outcomes@));
    results
}

} // verus!
