//! Laws on sessions with the commit graph: what each answer to what a session asked for leads to.

use vstd::prelude::*;

use crate::keys::action_of;
use crate::keys::moves_viewport;
use crate::keys::Action;
use crate::keys::KeyEvent;
use crate::keys::KeyEventKind;
use crate::oid::ObjectId;
use crate::screen::inline_rows;
use crate::screen::screen_change;
use crate::screen::Screen;
use crate::screen::ScreenChange;
use crate::session::frame_due;
use crate::session::input_timeout;
use crate::session::reduced;
use crate::session::verdicts;
use crate::session::AfterScreen;
use crate::session::App;
use crate::session::Command;
use crate::session::Effect;
use crate::session::Ending;
use crate::session::Event;
use crate::session::Failure;
use crate::session::HistoryPoll;
use crate::session::Input;
use crate::session::Phase;
use crate::session::Poll;
use crate::session::Session;
use crate::session::State;
use crate::signature::Outcome;

verus! {

/// What a session asks for.
pub proof fn law_phases_ask(
    change: ScreenChange,
    after: AfterScreen,
    timeout: Option<u128>,
    action: Action,
    effect: Effect,
    ending: Ending,
    events: usize,
    flag: bool,
)
    ensures
        Phase::Opening.command() == Command::Draw,
        Phase::UrgentFrame.command() == Command::Draw,
        (Phase::Frame { streaming: flag, events }).command() == Command::Draw,
        Phase::LastFrame.command() == Command::Draw,
        Phase::Verification.command() == Command::PollVerification,
        Phase::Lanes.command() == Command::PollLanes,
        (Phase::History { events, resize_inline: flag }).command() == Command::PollHistory,
        (Phase::StartingLanes { events }).command() == Command::StartLanes,
        (Phase::Measuring { resize_inline: flag, after }).command() == Command::MeasureTerminal,
        (Phase::Changing { change, after }).command() == Command::ChangeScreen(change),
        (Phase::Pacing { streaming: flag, events }).command() == Command::ReadClock,
        (Phase::Timing { streaming: flag, events }).command() == Command::ReadClock,
        (Phase::Waiting { timeout }).command() == Command::AwaitInput(timeout),
        Phase::Quieting.command() == Command::UpdateQuietly(Action::PreviewAuthorCopy(false)),
        (Phase::Updating { action }).command() == Command::Update(action),
        Phase::Effects.command() == Command::NextEffect,
        (Phase::Performing { effect }).command() == Command::Perform(effect),
        (Phase::Leaving { ending }).command() == Command::LeaveAlternateScreen,
        (Phase::Over { ending }).command() == Command::End(ending),
{
}

/// A session that goes on with the next turn: running workers are asked first, then a frame that can't wait is
/// drawn, and then the history is asked. Nothing else changes.
pub open spec fn goes_on(session: Session) -> Session {
    Session {
        phase: if session.verifying {
            Phase::Verification
        } else if session.computing_lanes {
            Phase::Lanes
        } else if session.urgent {
            Phase::UrgentFrame
        } else {
            Phase::History { events: 0, resize_inline: false }
        },
        ..session
    }
}

proof fn lemma_turn(session: Session)
    ensures
        session.at_turn() == goes_on(session),
        session.after_verification() == goes_on(Session { verifying: false, ..session }) || (
        session.verifying && session.after_verification() == (Session {
            verifying: true,
            ..goes_on(Session { verifying: false, ..session })
        })),
        session.after_lanes() == (Session {
            phase: if session.urgent {
                Phase::UrgentFrame
            } else {
                Phase::History { events: 0, resize_inline: false }
            },
            ..session
        }),
{
    reveal(Session::at_turn);
    reveal(Session::after_verification);
    reveal(Session::after_lanes);
}

/// After the first frame, and after each that couldn't wait, the next turn begins without anything to draw.
pub proof fn law_drawn_frames_are_clean(session: Session)
    requires
        session.phase == Phase::Opening || session.phase == Phase::UrgentFrame,
    ensures
        session.next(Event::Done) == goes_on(Session { dirty: false, urgent: false, ..session }),
{
    lemma_turn(Session { dirty: false, urgent: false, ..session });
}

/// Results of the signature verification end it and have a frame drawn; without results the turn goes on with
/// the lanes, and a verification that stopped without results is a failure.
pub proof fn law_verification_is_looked_at_first(session: Session)
    requires
        session.phase == Phase::Verification,
    ensures
        session.next(Event::Verification(Poll::Ready)) == goes_on(
            Session { verifying: false, dirty: true, ..session },
        ),
        session.next(Event::Verification(Poll::Empty)) == (Session {
            verifying: session.verifying,
            ..goes_on(Session { verifying: false, ..session })
        }),
        session.next(Event::Verification(Poll::Disconnected)) == ends(
            session,
            Ending::Failed(Failure::VerificationStopped),
        ),
{
    lemma_turn(session);
    lemma_turn(Session { verifying: false, dirty: true, ..session });
    reveal(Session::after_verification);
    reveal(Session::after_lanes);
    lemma_ends(session, Ending::Failed(Failure::VerificationStopped));
}

/// Computed lanes have a frame drawn, or end the session with the time that they took if it is to end with
/// them; lanes that stopped without a result are a failure.
pub proof fn law_lanes_are_looked_at_second(session: Session)
    requires
        session.phase == Phase::Lanes,
    ensures
        session.quit_on_finish ==> session.next(Event::Lanes(Poll::Ready)) == ends(
            Session { computing_lanes: false, dirty: true, ..session },
            Ending::Finished(session.app.lane_time),
        ),
        !session.quit_on_finish ==> session.next(Event::Lanes(Poll::Ready)) == (Session {
            verifying: session.verifying,
            ..goes_on(
                Session { verifying: false, computing_lanes: false, dirty: true, ..session },
            )
        }),
        session.next(Event::Lanes(Poll::Empty)) == (Session {
            verifying: session.verifying,
            computing_lanes: session.computing_lanes,
            ..goes_on(Session { verifying: false, computing_lanes: false, ..session })
        }),
        session.next(Event::Lanes(Poll::Disconnected)) == ends(
            session,
            Ending::Failed(Failure::LanesStopped),
        ),
{
    reveal(Session::after_lanes);
    lemma_ends(session, Ending::Failed(Failure::LanesStopped));
    lemma_ends(
        Session { computing_lanes: false, dirty: true, ..session },
        Ending::Finished(session.app.lane_time),
    );
}

/// A session that ends: the alternate screen is left first. Then an inline session that was quit draws a last
/// frame without panes, and any other is over.
pub open spec fn ends(session: Session, ending: Ending) -> Session {
    if session.in_alternate_screen {
        Session { phase: Phase::Leaving { ending }, ..session }
    } else if session.started_inline && ending == Ending::Finished(None) {
        Session {
            app: App {
                inline: true,
                show_commit: false,
                show_changes: false,
                changes_focused: false,
                reset_changes_view: true,
                show_selection_tail: false,
                ..session.app
            },
            phase: Phase::LastFrame,
            ..session
        }
    } else {
        Session { phase: Phase::Over { ending }, ..session }
    }
}

proof fn lemma_ends(session: Session, ending: Ending)
    ensures
        session.ending(ending) == ends(session, ending),
        !session.in_alternate_screen ==> session.restored(ending) == ends(session, ending),
{
    reveal(Session::ending);
    reveal(Session::restored);
}

/// What fails ends the session as a failure; what fails while the alternate screen is left or the last frame is
/// drawn does so at once, but an earlier failure stays the reason.
pub proof fn law_failures_end_sessions(session: Session, ending: Ending)
    ensures
        session.phase == (Phase::Leaving { ending }) ==> session.next(Event::Failed) == (Session {
            in_alternate_screen: false,
            phase: Phase::Over {
                ending: if ending is Failed {
                    ending
                } else {
                    Ending::Failed(Failure::Operation)
                },
            },
            ..session
        }),
        session.phase == Phase::LastFrame ==> session.next(Event::Failed) == (Session {
            phase: Phase::Over { ending: Ending::Failed(Failure::Operation) },
            ..session
        }),
        session.phase == (Phase::Over { ending }) ==> session.next(Event::Failed) == session,
        !(session.phase is Leaving) && !(session.phase is LastFrame) && !(session.phase is Over)
            ==> session.next(Event::Failed) == ends(session, Ending::Failed(Failure::Operation)),
{
    lemma_ends(session, Ending::Failed(Failure::Operation));
}

/// Once the alternate screen is left the session ends as it was to, and after the last frame it is over.
pub proof fn law_endings_are_kept(session: Session, ending: Ending)
    ensures
        session.phase == (Phase::Leaving { ending }) ==> session.next(Event::Done) == ends(
            Session { in_alternate_screen: false, ..session },
            ending,
        ),
        session.phase == Phase::LastFrame ==> session.next(Event::Done) == (Session {
            phase: Phase::Over { ending: Ending::Finished(None) },
            ..session
        }),
{
    lemma_ends(Session { in_alternate_screen: false, ..session }, ending);
}

/// A session that has taken in one more message: it looks for the next one, unless that were more than 256 in
/// a batch; then the screen is looked after.
pub open spec fn takes_more(session: Session, events: int, resize_inline: bool) -> Session {
    if events < 256 {
        Session {
            phase: Phase::History { events: events as usize, resize_inline },
            ..session
        }
    } else {
        looks_after_screen(session, events, resize_inline)
    }
}

/// A session that looks after its screen before it draws.
pub open spec fn looks_after_screen(session: Session, events: int, resize_inline: bool) -> Session {
    Session {
        phase: Phase::Measuring {
            resize_inline,
            after: AfterScreen::Frame { events: events as usize },
        },
        ..session
    }
}

/// Whether a history is too long for the main screen: in automatic mode, if it has as many commits as half of
/// the terminal has rows, but at least one.
pub open spec fn is_too_long(session: Session, terminal_height: u16) -> bool {
    session.screen == Screen::Auto && session.app.rows@.len() >= 1 && session.app.rows@.len()
        >= terminal_height as int / 2
}

/// Each message about the history has a frame drawn and is counted. More commits can only make the history too
/// long; that it is complete decides whether it is, before the lanes are begun. Without a message the screen is
/// looked after, and so it is if there will be none and none is missing; otherwise that is a failure.
pub proof fn law_messages_are_taken_in(
    session: Session,
    events: usize,
    resize_inline: bool,
    terminal_height: u16,
)
    requires
        session.phase == (Phase::History { events, resize_inline }),
        events < 256,
    ensures
        session.next(Event::History(HistoryPoll::Empty)) == looks_after_screen(
            session,
            events as int,
            resize_inline,
        ),
        session.app.state == State::Computing || session.app.state == State::Complete
            || session.app.state == State::Cancelled ==> session.next(
            Event::History(HistoryPoll::Disconnected),
        ) == looks_after_screen(session, events as int, resize_inline),
        session.app.state == State::Loading || session.app.state == State::Cancelling
            ==> session.next(Event::History(HistoryPoll::Disconnected)) == ends(
            session,
            Ending::Failed(Failure::HistoryStopped),
        ),
        session.next(Event::History(HistoryPoll::Decorations)) == takes_more(
            Session { dirty: true, ..session },
            events + 1,
            resize_inline,
        ),
        session.next(Event::History(HistoryPoll::Cancelled)) == takes_more(
            Session { dirty: true, ..session },
            events + 1,
            resize_inline,
        ),
        session.next(Event::History(HistoryPoll::Commits { terminal_height })) == takes_more(
            Session {
                dirty: true,
                history_requires_alternate_screen: session.history_requires_alternate_screen
                    || is_too_long(session, terminal_height),
                ..session
            },
            events + 1,
            resize_inline,
        ),
        session.next(Event::History(HistoryPoll::Complete { terminal_height })) == (Session {
            dirty: true,
            history_requires_alternate_screen: is_too_long(session, terminal_height),
            phase: Phase::StartingLanes { events: (events + 1) as usize },
            ..session
        }),
{
    reveal(Session::after_history);
    reveal(Session::after_message);
    lemma_ends(session, Ending::Failed(Failure::HistoryStopped));
}

/// Lanes that were begun are looked for from then on, and the inline screen is made to fit.
pub proof fn law_begun_lanes_are_looked_for(session: Session, events: usize, started: bool)
    requires
        session.phase == (Phase::StartingLanes { events }),
    ensures
        started ==> session.next(Event::LanesStarted(started)) == takes_more(
            Session { computing_lanes: true, ..session },
            events as int,
            true,
        ),
        !started ==> session.next(Event::LanesStarted(started)) == takes_more(
            session,
            events as int,
            true,
        ),
{
    reveal(Session::after_starting);
    reveal(Session::after_message);
}

/// A session whose screen is right: it finds out whether a frame is due, or goes on with the next turn. Something
/// is streaming in while signatures are verified, and until the history is complete with its lanes or cancelled.
pub open spec fn has_right_screen(session: Session, after: AfterScreen) -> Session {
    match after {
        AfterScreen::Frame { events } => Session {
            phase: Phase::Pacing {
                streaming: session.verifying || (session.app.state != State::Complete
                    && session.app.state != State::Cancelled),
                events,
            },
            ..session
        },
        AfterScreen::Turn => goes_on(session),
    }
}

proof fn lemma_right_screen(session: Session, after: AfterScreen)
    ensures
        session.on_right_screen(after) == has_right_screen(session, after),
{
    reveal(Session::on_right_screen);
    lemma_turn(session);
}

/// Once the terminal is measured, the screen changes if what is shown needs it, and stays right otherwise. The
/// alternate screen counts as left as soon as it is to be.
pub proof fn law_measured_screens_are_made_right(
    session: Session,
    resize_inline: bool,
    after: AfterScreen,
    height: u16,
    change: ScreenChange,
)
    requires
        session.phase == (Phase::Measuring { resize_inline, after }),
        change == screen_change(
            inline_rows(session.screen, height, session.app.rows@.len() as usize),
            session.app.show_commit || session.app.show_changes,
            session.history_requires_alternate_screen,
            session.started_inline,
            session.app.inline,
            resize_inline,
            session.in_alternate_screen,
        ),
    ensures
        change == ScreenChange::Stay ==> session.next(Event::TerminalHeight(height))
            == has_right_screen(session, after),
        change is Leave ==> session.next(Event::TerminalHeight(height)) == (Session {
            in_alternate_screen: false,
            phase: Phase::Changing { change, after },
            ..session
        }),
        change is Enter || change is Resize ==> session.next(Event::TerminalHeight(height)) == (
        Session { phase: Phase::Changing { change, after }, ..session }),
{
    reveal(Session::after_measuring);
    lemma_right_screen(session, after);
}

/// Once the screen has changed, the session is where it changed to, and nothing else is different.
pub proof fn law_changed_screens_are_where_they_are(
    session: Session,
    change: ScreenChange,
    after: AfterScreen,
)
    requires
        session.phase == (Phase::Changing { change, after }),
    ensures
        change is Enter ==> session.next(Event::Done) == has_right_screen(
            Session {
                in_alternate_screen: true,
                app: App { inline: false, ..session.app },
                ..session
            },
            after,
        ),
        change is Leave ==> session.next(Event::Done) == has_right_screen(
            Session { app: App { inline: true, ..session.app }, ..session },
            after,
        ),
        change is Resize ==> session.next(Event::Done) == has_right_screen(session, after),
{
    reveal(Session::after_change);
    lemma_right_screen(session, after);
    lemma_right_screen(
        Session { in_alternate_screen: true, app: App { inline: false, ..session.app }, ..session },
        after,
    );
    lemma_right_screen(Session { app: App { inline: true, ..session.app }, ..session }, after);
}

/// A frame is due if anything changed and, while something is streaming in, a sixtieth of a second has passed
/// since the last one. A drawn frame is clean.
pub proof fn law_frames_are_due(session: Session, streaming: bool, events: usize, since_draw: u128)
    ensures
        frame_due(session.dirty, streaming, since_draw) <==> session.dirty && (!streaming || since_draw
            >= 16_666_667),
        session.phase == (Phase::Pacing { streaming, events }) && session.dirty && (!streaming
            || since_draw >= 16_666_667) ==> session.next(Event::SinceDraw(since_draw)) == (Session {
            phase: Phase::Frame { streaming, events },
            ..session
        }),
        session.phase == (Phase::Pacing { streaming, events }) && (!session.dirty || (streaming
            && since_draw < 16_666_667)) ==> session.next(Event::SinceDraw(since_draw)) == (Session {
            phase: Phase::Timing { streaming, events },
            ..session
        }),
        session.phase == (Phase::Frame { streaming, events }) ==> session.next(Event::Done) == (
        Session { dirty: false, phase: Phase::Timing { streaming, events }, ..session }),
{
}

/// Input is waited for as long as it takes if nothing is streaming in. Otherwise it isn't waited for after a full
/// batch of messages, and until the next frame is due if anything changed, or for as long as a frame takes.
pub proof fn law_input_is_waited_for(
    session: Session,
    streaming: bool,
    events: usize,
    since_draw: u128,
    timeout: Option<u128>,
)
    requires
        session.phase == (Phase::Timing { streaming, events }),
        session.next(Event::SinceDraw(since_draw)).phase == (Phase::Waiting { timeout }),
    ensures
        session.next(Event::SinceDraw(since_draw)) == (Session {
            phase: Phase::Waiting { timeout },
            ..session
        }),
        !streaming ==> timeout is None,
        streaming && events == 256 ==> timeout == Some(0u128),
        streaming && events != 256 && !session.dirty ==> timeout == Some(16_666_667u128),
        streaming && events != 256 && session.dirty && since_draw >= 16_666_667 ==> timeout == Some(
            0u128,
        ),
        streaming && events != 256 && session.dirty && since_draw < 16_666_667 ==> (timeout matches Some(
            time,
        ) && time + since_draw == 16_666_667),
        input_timeout(streaming, events, session.dirty, since_draw) == timeout,
{
}

/// A session that waits for input always goes on to wait once the clock is read.
pub proof fn law_the_clock_is_read_before_waiting(
    session: Session,
    streaming: bool,
    events: usize,
    since_draw: u128,
)
    requires
        session.phase == (Phase::Timing { streaming, events }),
    ensures
        session.next(Event::SinceDraw(since_draw)).phase is Waiting,
{
}

/// Losing the focus ends the preview of the author, and is drawn at once, as is another size. Gaining the focus
/// changes nothing else, and other input nothing at all.
pub proof fn law_input_without_keys(session: Session, timeout: Option<u128>)
    requires
        session.phase == (Phase::Waiting { timeout }),
    ensures
        session.next(Event::Input(Input::TimedOut)) == goes_on(session),
        session.next(Event::Input(Input::Other)) == goes_on(session),
        session.next(Event::Input(Input::FocusGained)) == goes_on(
            Session { focused: true, ..session },
        ),
        session.next(Event::Input(Input::Resize)) == goes_on(
            Session { dirty: true, urgent: true, ..session },
        ),
        session.next(Event::Input(Input::FocusLost)) == (Session {
            focused: false,
            dirty: true,
            urgent: true,
            phase: Phase::Quieting,
            ..session
        }),
{
    reveal(Session::after_input);
    lemma_turn(session);
    lemma_turn(Session { focused: true, ..session });
    lemma_turn(Session { dirty: true, urgent: true, ..session });
}

/// A session with a key that was looked at: the repository is kept open only while a key that moves through the
/// rows is held down and the changes don't take the keys.
pub open spec fn has_looked_at(session: Session, key: KeyEvent) -> Session {
    Session {
        retain_repository: !session.app.changes_focused && key.kind == KeyEventKind::Repeat && (
        action_of(key) matches Some(action) && moves_viewport(action)),
        ..session
    }
}

/// A key does what it stands for, and that is drawn at once, if the terminal has the focus and the key stands for
/// anything. Only visible changes can take the focus. Without the focus a key does nothing.
pub proof fn law_keys_do_what_they_stand_for(
    session: Session,
    timeout: Option<u128>,
    key: KeyEvent,
    changes_visible: bool,
)
    requires
        session.phase == (Phase::Waiting { timeout }),
    ensures
        ({
            let next = session.next(Event::Input(Input::Key { key, changes_visible }));
            &&& !session.focused ==> next == goes_on(session)
            &&& session.focused && action_of(key) is None ==> next == goes_on(
                has_looked_at(session, key),
            )
            &&& session.focused && action_of(key) == Some(Action::ToggleChangesFocus)
                && !changes_visible ==> next == goes_on(has_looked_at(session, key))
            &&& session.focused && action_of(key) is Some && (changes_visible || action_of(key)
                != Some(Action::ToggleChangesFocus)) ==> next == (Session {
                dirty: true,
                urgent: true,
                phase: Phase::Updating { action: action_of(key).unwrap() },
                ..has_looked_at(session, key)
            })
        }),
{
    reveal(Session::after_input);
    reveal(Session::after_key);
    lemma_turn(session);
    lemma_turn(has_looked_at(session, key));
}

/// What an action asks for is done one after the other, then the screen is looked after. Quitting ends the session
/// at once, and signatures that are to be verified are looked for from then on.
pub proof fn law_effects_are_performed_in_turn(
    session: Session,
    effect: Effect,
    action: Action,
)
    ensures
        session.phase == (Phase::Updating { action }) ==> session.next(Event::Done) == (Session {
            phase: Phase::Effects,
            ..session
        }),
        session.phase == Phase::Quieting ==> session.next(Event::Done) == goes_on(session),
        session.phase == Phase::Effects && effect != Effect::Quit ==> session.next(
            Event::Effect(effect),
        ) == (Session { phase: Phase::Performing { effect }, ..session }),
        session.phase == Phase::Effects ==> session.next(Event::Effect(Effect::Quit)) == ends(
            session,
            Ending::Finished(None),
        ),
        session.phase == Phase::Effects ==> session.next(Event::NoMoreEffects) == (Session {
            phase: Phase::Measuring { resize_inline: false, after: AfterScreen::Turn },
            ..session
        }),
        session.phase == (Phase::Performing { effect }) && effect == Effect::VerifySignatures
            ==> session.next(Event::Done) == (Session {
            verifying: true,
            phase: Phase::Effects,
            ..session
        }),
        session.phase == (Phase::Performing { effect }) && effect != Effect::VerifySignatures
            ==> session.next(Event::Done) == (Session { phase: Phase::Effects, ..session }),
{
    lemma_turn(session);
    lemma_ends(session, Ending::Finished(None));
}

/// What is left of panes and selection at the end.
pub proof fn law_last_frames_show_no_panes(app: App)
    ensures
        reduced(app) == (App {
            inline: true,
            show_commit: false,
            show_changes: false,
            changes_focused: false,
            reset_changes_view: true,
            show_selection_tail: false,
            ..app
        }),
{
}

/// What failures say, apart from those that speak for themselves.
pub proof fn law_failures_say_why()
    ensures
        Failure::Operation.text() is None,
        Failure::VerificationStopped.text() == Some(
            "signature verification worker stopped unexpectedly"@,
        ),
        Failure::LanesStopped.text() == Some("lane worker stopped unexpectedly"@),
        Failure::HistoryStopped.text() == Some("history worker stopped unexpectedly"@),
{
}

/// Each commit gets one verdict, in their order: it is verified exactly if its signature could be verified and
/// is valid.
pub proof fn law_each_commit_gets_a_verdict(
    ids: Seq<ObjectId>,
    outcomes: Seq<Result<Option<Outcome>, ()>>,
    i: int,
)
    requires
        0 <= i < ids.len(),
    ensures
        verdicts(ids, outcomes).len() == ids.len(),
        verdicts(ids, outcomes)[i].0 == ids[i]@,
        i >= outcomes.len() ==> !verdicts(ids, outcomes)[i].1,
        i < outcomes.len() && outcomes[i] is Err ==> !verdicts(ids, outcomes)[i].1,
        i < outcomes.len() && outcomes[i] == Ok::<Option<Outcome>, ()>(None) ==> !verdicts(
            ids,
            outcomes,
        )[i].1,
        i < outcomes.len() ==> (outcomes[i] matches Ok(Some(outcome)) ==> verdicts(
            ids,
            outcomes,
        )[i].1 == outcome@.valid),
{
}

} // verus!
