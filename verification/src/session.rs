//! Session automaton: drives the login and navigation dialogue from screen
//! content, cursor position and quiescence alone. The transport lives
//! outside: the caller reads with a timeout, hands each outcome in as an
//! event, performs the returned action, and repeats. Quiescence — a read
//! that timed out — is the signal that a burst is over and the screen may
//! be inspected.

use vstd::prelude::*;

use crate::ansi::ParseError;
use crate::ansi::initial_tokenizer;
use crate::error::CrawlerError;
use crate::screen::Screen;
use crate::screen::ScreenModel;
use crate::screen::initial_screen;
use crate::screen::screen_contains;
use crate::screen::spec_process;

verus! {

/// Where the dialogue stands.
#[derive(Clone, Copy, Debug, PartialEq, Eq, Structural)]
pub enum Step {
    /// Waiting for the login prompt; retried without bound.
    AwaitPrompt,
    /// Credentials sent; waiting for the welcome marker.
    AwaitWelcome,
    /// A dismissing keystroke sent; draining until quiet, then re-checking
    /// for the main menu.
    DismissDrain,
    /// Login complete.
    LoggedIn,
    /// Waiting for the hot-board list marker.
    NavHotBoards,
    /// Waiting for the cursor to rest on the list entry.
    NavCursor,
    /// Waiting for the board's name.
    NavBoardName,
    /// Waiting for the press-any-key marker.
    NavAnyKey,
    /// Waiting for the board's title line.
    NavBoardTitle,
    /// Navigation complete.
    BoardEntered,
    /// A typed failure was reported.
    Failed,
}

/// One outcome of a bounded transport read.
#[derive(Debug)]
pub enum SessionEvent {
    /// Bytes arrived.
    Data(Vec<u8>),
    /// The read timed out: the remote has gone quiet.
    TimedOut,
}

pub enum EventModel {
    Data(Seq<u8>),
    TimedOut,
}

impl View for SessionEvent {
    type V = EventModel;

    open spec fn view(&self) -> EventModel {
        match self {
            SessionEvent::Data(bs) => EventModel::Data(bs@),
            SessionEvent::TimedOut => EventModel::TimedOut,
        }
    }
}

/// What the caller must do next.
#[derive(Debug)]
pub enum SessionAction {
    /// Read again.
    Continue,
    /// Write these bytes to the transport, then read again.
    Write(Vec<u8>),
    /// The current phase reached its goal.
    Complete,
    /// The session failed; stop.
    Fail(CrawlerError),
}

pub enum ActionModel {
    Continue,
    Write(Seq<u8>),
    Complete,
    Fail(CrawlerError),
}

impl View for SessionAction {
    type V = ActionModel;

    open spec fn view(&self) -> ActionModel {
        match self {
            SessionAction::Continue => ActionModel::Continue,
            SessionAction::Write(bs) => ActionModel::Write(bs@),
            SessionAction::Complete => ActionModel::Complete,
            SessionAction::Fail(e) => ActionModel::Fail(*e),
        }
    }
}

/// The automaton: the screen it owns, where the dialogue stands, how many
/// dismissing keystrokes were sent, and the credentials to submit.
pub struct Session {
    screen: Screen,
    step: Step,
    dismiss_count: u32,
    account: Vec<u8>,
    password: Vec<u8>,
}

pub struct SessionModel {
    pub screen: ScreenModel,
    pub step: Step,
    pub dismiss_count: int,
    pub account: Seq<u8>,
    pub password: Seq<u8>,
}

impl View for Session {
    type V = SessionModel;

    closed spec fn view(&self) -> SessionModel {
        SessionModel {
            screen: self.screen@,
            step: self.step,
            dismiss_count: self.dismiss_count as int,
            account: self.account@,
            password: self.password@,
        }
    }
}

/// Carriage return plus line feed, as the remote expects after each field.
pub open spec fn crlf() -> Seq<u8> {
    seq![13u8, 10u8]
}

/// The whole credential submission: account, enter, password, enter.
pub open spec fn creds_bytes(s: SessionModel) -> Seq<u8> {
    s.account + crlf() + s.password + crlf()
}

/// The cursor-up keystroke.
pub open spec fn arrow_up() -> Seq<u8> {
    seq![27u8, 91u8, 65u8]
}

/// The cursor-forward keystroke.
pub open spec fn arrow_right() -> Seq<u8> {
    seq![27u8, 91u8, 67u8]
}

/// The dismissing keystroke: a single space.
pub open spec fn space_bytes() -> Seq<u8> {
    seq![32u8]
}

/// How many dismissing keystrokes may be sent before giving up.
pub const DISMISS_LIMIT: u32 = 5;

/// The screen of `s`, with nothing else changed.
pub open spec fn with_screen(s: SessionModel, scr: ScreenModel) -> SessionModel {
    SessionModel { screen: scr, ..s }
}

/// The prompt was seen: submit the credentials and await the outcome.
pub open spec fn spec_submit(s: SessionModel) -> (SessionModel, ActionModel) {
    (SessionModel { step: Step::AwaitWelcome, ..s }, ActionModel::Write(creds_bytes(s)))
}

/// The welcome marker was seen: if the main menu is already there login is
/// complete, else send the first dismissing keystroke.
pub open spec fn spec_enter_dismiss(s: SessionModel) -> (SessionModel, ActionModel) {
    if screen_contains(s.screen.grid, "主功能表"@) {
        (SessionModel { step: Step::LoggedIn, ..s }, ActionModel::Complete)
    } else {
        (
            SessionModel { step: Step::DismissDrain, dismiss_count: 1, ..s },
            ActionModel::Write(space_bytes()),
        )
    }
}

/// The step taken when data arrived and the screen was updated: each
/// awaiting step tests its predicate and advances when it holds.
pub open spec fn spec_step_data(s: SessionModel) -> (SessionModel, ActionModel) {
    match s.step {
        Step::AwaitPrompt => if screen_contains(s.screen.grid, "請輸入代號"@) {
            spec_submit(s)
        } else {
            (s, ActionModel::Continue)
        },
        Step::AwaitWelcome => if screen_contains(s.screen.grid, "歡迎您再度拜訪"@) {
            spec_enter_dismiss(s)
        } else {
            (s, ActionModel::Continue)
        },
        Step::DismissDrain => (s, ActionModel::Continue),
        Step::NavHotBoards => if screen_contains(s.screen.grid, "即時熱門看板"@) {
            (SessionModel { step: Step::NavCursor, ..s }, ActionModel::Write(arrow_up()))
        } else {
            (s, ActionModel::Continue)
        },
        Step::NavCursor => if s.screen.cursor_row == 19 && s.screen.cursor_col == 10 {
            (SessionModel { step: Step::NavBoardName, ..s }, ActionModel::Write(arrow_right()))
        } else {
            (s, ActionModel::Continue)
        },
        Step::NavBoardName => if screen_contains(s.screen.grid, "Gossiping"@) {
            (SessionModel { step: Step::NavAnyKey, ..s }, ActionModel::Write(arrow_right()))
        } else {
            (s, ActionModel::Continue)
        },
        Step::NavAnyKey => if screen_contains(s.screen.grid, "請按任意鍵繼續"@) {
            (SessionModel { step: Step::NavBoardTitle, ..s }, ActionModel::Write(arrow_right()))
        } else {
            (s, ActionModel::Continue)
        },
        Step::NavBoardTitle => if screen_contains(s.screen.grid, "看板《Gossiping》"@) {
            (SessionModel { step: Step::BoardEntered, ..s }, ActionModel::Complete)
        } else {
            (s, ActionModel::Continue)
        },
        _ => (s, ActionModel::Continue),
    }
}

/// The step taken at quiescence: each awaiting step re-tests its predicate
/// once against the now-stable screen and decides.
pub open spec fn spec_step_timeout(s: SessionModel) -> (SessionModel, ActionModel) {
    match s.step {
        Step::AwaitPrompt => if screen_contains(s.screen.grid, "請輸入代號"@) {
            spec_submit(s)
        } else {
            // The remote is assumed to eventually present the prompt:
            // retried without bound.
            (s, ActionModel::Continue)
        },
        Step::AwaitWelcome => if screen_contains(s.screen.grid, "歡迎您再度拜訪"@) {
            spec_enter_dismiss(s)
        } else if screen_contains(s.screen.grid, "請重新輸入"@) {
            (
                SessionModel { step: Step::Failed, ..s },
                ActionModel::Fail(CrawlerError::UsernameOrPasswordWrong),
            )
        } else {
            (
                SessionModel { step: Step::Failed, ..s },
                ActionModel::Fail(CrawlerError::SomethingWrong(1)),
            )
        },
        Step::DismissDrain => if s.dismiss_count > DISMISS_LIMIT {
            (
                SessionModel { step: Step::Failed, ..s },
                ActionModel::Fail(CrawlerError::SomethingWrong(2)),
            )
        } else if screen_contains(s.screen.grid, "主功能表"@) {
            (SessionModel { step: Step::LoggedIn, ..s }, ActionModel::Complete)
        } else {
            (
                SessionModel { dismiss_count: s.dismiss_count + 1, ..s },
                ActionModel::Write(space_bytes()),
            )
        },
        // The intermediate navigation waits proceed at quiescence whether or
        // not their marker appeared.
        Step::NavHotBoards => (
            SessionModel { step: Step::NavCursor, ..s },
            ActionModel::Write(arrow_up()),
        ),
        Step::NavCursor => (
            SessionModel { step: Step::NavBoardName, ..s },
            ActionModel::Write(arrow_right()),
        ),
        Step::NavBoardName => (
            SessionModel { step: Step::NavAnyKey, ..s },
            ActionModel::Write(arrow_right()),
        ),
        Step::NavAnyKey => (
            SessionModel { step: Step::NavBoardTitle, ..s },
            ActionModel::Write(arrow_right()),
        ),
        Step::NavBoardTitle => if screen_contains(s.screen.grid, "看板《Gossiping》"@) {
            (SessionModel { step: Step::BoardEntered, ..s }, ActionModel::Complete)
        } else {
            (
                SessionModel { step: Step::Failed, ..s },
                ActionModel::Fail(CrawlerError::SomethingWrong(3)),
            )
        },
        _ => (s, ActionModel::Continue),
    }
}

/// What one event does to the whole session: data is replayed onto the
/// screen and then the step's predicate is tested; quiescence triggers the
/// step's timeout decision. A malformed control sequence fails the call.
pub open spec fn spec_on_event(s: SessionModel, ev: EventModel) -> Result<
    (SessionModel, ActionModel),
    ParseError,
> {
    match ev {
        EventModel::Data(bytes) => match spec_process(s.screen, bytes) {
            Err(e) => Err(e),
            Ok(scr2) => Ok(spec_step_data(with_screen(s, scr2))),
        },
        EventModel::TimedOut => Ok(spec_step_timeout(s)),
    }
}

/// Appends all of `src`.
fn push_all(dst: &mut Vec<u8>, src: &Vec<u8>)
    ensures
        final(dst)@ == old(dst)@ + src@,
{
    let mut i: usize = 0;
    while i < src.len()
        invariant
            i <= src@.len(),
            dst@ == old(dst)@ + src@.take(i as int),
        decreases src@.len() - i,
    {
        dst.push(src[i]);
        proof {
            assert(old(dst)@ + src@.take(i + 1) =~= (old(dst)@ + src@.take(i as int)).push(
                src@[i as int],
            ));
        }
        i += 1;
    }
    proof {
        assert(src@.take(src@.len() as int) =~= src@);
    }
}

/// The cursor-up keystroke.
fn arrow_up_vec() -> (v: Vec<u8>)
    ensures
        v@ == arrow_up(),
{
    let mut v: Vec<u8> = Vec::new();
    v.push(27);
    v.push(91);
    v.push(65);
    proof {
        assert(v@ =~= arrow_up());
    }
    v
}

/// The cursor-forward keystroke.
fn arrow_right_vec() -> (v: Vec<u8>)
    ensures
        v@ == arrow_right(),
{
    let mut v: Vec<u8> = Vec::new();
    v.push(27);
    v.push(91);
    v.push(67);
    proof {
        assert(v@ =~= arrow_right());
    }
    v
}

/// The dismissing keystroke.
fn space_vec() -> (v: Vec<u8>)
    ensures
        v@ == space_bytes(),
{
    let mut v: Vec<u8> = Vec::new();
    v.push(32);
    proof {
        assert(v@ =~= space_bytes());
    }
    v
}

impl Session {
    /// A fresh automaton holding the credentials to submit, its screen
    /// blank, waiting for the login prompt.
    pub fn new(account: Vec<u8>, password: Vec<u8>) -> (r: Session)
        ensures
            r@ == (SessionModel {
                screen: initial_screen(),
                step: Step::AwaitPrompt,
                dismiss_count: 0,
                account: account@,
                password: password@,
            }),
            r@.wf(),
    {
        Session {
            screen: Screen::new(),
            step: Step::AwaitPrompt,
            dismiss_count: 0,
            account,
            password,
        }
    }

    /// Where the dialogue stands.
    pub fn current_step(&self) -> (s: Step)
        ensures
            s == self@.step,
    {
        self.step
    }

    /// The decoded screen, for an operator's inspection.
    pub fn render(&self) -> (r: String)
        requires
            self@.wf(),
        ensures
            r@ == crate::screen::spec_render(self@.screen.grid, crate::screen::SCREEN_HEIGHT as int),
    {
        self.screen.render()
    }

    /// The credential submission for this session.
    fn creds_vec(&self) -> (v: Vec<u8>)
        ensures
            v@ == creds_bytes(self@),
    {
        let mut v: Vec<u8> = Vec::new();
        push_all(&mut v, &self.account);
        v.push(13);
        v.push(10);
        push_all(&mut v, &self.password);
        v.push(13);
        v.push(10);
        proof {
            assert(v@ =~= creds_bytes(self@));
        }
        v
    }

    /// The decision taken after data was replayed onto the screen.
    fn step_data(&mut self) -> (a: SessionAction)
        requires
            old(self)@.wf(),
        ensures
            final(self)@.wf(),
            final(self)@ == spec_step_data(old(self)@).0,
            a@ == spec_step_data(old(self)@).1,
    {
        match self.step {
            Step::AwaitPrompt => {
                if self.screen.contains("請輸入代號") {
                    let creds = self.creds_vec();
                    self.step = Step::AwaitWelcome;
                    SessionAction::Write(creds)
                } else {
                    SessionAction::Continue
                }
            },
            Step::AwaitWelcome => {
                if self.screen.contains("歡迎您再度拜訪") {
                    self.enter_dismiss()
                } else {
                    SessionAction::Continue
                }
            },
            Step::NavHotBoards => {
                if self.screen.contains("即時熱門看板") {
                    self.step = Step::NavCursor;
                    SessionAction::Write(arrow_up_vec())
                } else {
                    SessionAction::Continue
                }
            },
            Step::NavCursor => {
                let pos = self.screen.cursor_position();
                if pos.0 == 19 && pos.1 == 10 {
                    self.step = Step::NavBoardName;
                    SessionAction::Write(arrow_right_vec())
                } else {
                    SessionAction::Continue
                }
            },
            Step::NavBoardName => {
                if self.screen.contains("Gossiping") {
                    self.step = Step::NavAnyKey;
                    SessionAction::Write(arrow_right_vec())
                } else {
                    SessionAction::Continue
                }
            },
            Step::NavAnyKey => {
                if self.screen.contains("請按任意鍵繼續") {
                    self.step = Step::NavBoardTitle;
                    SessionAction::Write(arrow_right_vec())
                } else {
                    SessionAction::Continue
                }
            },
            Step::NavBoardTitle => {
                if self.screen.contains("看板《Gossiping》") {
                    self.step = Step::BoardEntered;
                    SessionAction::Complete
                } else {
                    SessionAction::Continue
                }
            },
            _ => SessionAction::Continue,
        }
    }

    /// The welcome marker was seen.
    fn enter_dismiss(&mut self) -> (a: SessionAction)
        requires
            old(self)@.wf(),
        ensures
            final(self)@.wf(),
            final(self)@ == spec_enter_dismiss(old(self)@).0,
            a@ == spec_enter_dismiss(old(self)@).1,
    {
        if self.screen.contains("主功能表") {
            self.step = Step::LoggedIn;
            SessionAction::Complete
        } else {
            self.step = Step::DismissDrain;
            self.dismiss_count = 1;
            SessionAction::Write(space_vec())
        }
    }

    /// The decision taken at quiescence.
    fn step_timeout(&mut self) -> (a: SessionAction)
        requires
            old(self)@.wf(),
        ensures
            final(self)@.wf(),
            final(self)@ == spec_step_timeout(old(self)@).0,
            a@ == spec_step_timeout(old(self)@).1,
    {
        match self.step {
            Step::AwaitPrompt => {
                if self.screen.contains("請輸入代號") {
                    let creds = self.creds_vec();
                    self.step = Step::AwaitWelcome;
                    SessionAction::Write(creds)
                } else {
                    SessionAction::Continue
                }
            },
            Step::AwaitWelcome => {
                if self.screen.contains("歡迎您再度拜訪") {
                    self.enter_dismiss()
                } else if self.screen.contains("請重新輸入") {
                    self.step = Step::Failed;
                    SessionAction::Fail(CrawlerError::UsernameOrPasswordWrong)
                } else {
                    self.step = Step::Failed;
                    SessionAction::Fail(CrawlerError::SomethingWrong(1))
                }
            },
            Step::DismissDrain => {
                if self.dismiss_count > DISMISS_LIMIT {
                    self.step = Step::Failed;
                    SessionAction::Fail(CrawlerError::SomethingWrong(2))
                } else if self.screen.contains("主功能表") {
                    self.step = Step::LoggedIn;
                    SessionAction::Complete
                } else {
                    self.dismiss_count = self.dismiss_count + 1;
                    SessionAction::Write(space_vec())
                }
            },
            Step::NavHotBoards => {
                self.step = Step::NavCursor;
                SessionAction::Write(arrow_up_vec())
            },
            Step::NavCursor => {
                self.step = Step::NavBoardName;
                SessionAction::Write(arrow_right_vec())
            },
            Step::NavBoardName => {
                self.step = Step::NavAnyKey;
                SessionAction::Write(arrow_right_vec())
            },
            Step::NavAnyKey => {
                self.step = Step::NavBoardTitle;
                SessionAction::Write(arrow_right_vec())
            },
            Step::NavBoardTitle => {
                if self.screen.contains("看板《Gossiping》") {
                    self.step = Step::BoardEntered;
                    SessionAction::Complete
                } else {
                    self.step = Step::Failed;
                    SessionAction::Fail(CrawlerError::SomethingWrong(3))
                }
            },
            _ => SessionAction::Continue,
        }
    }

    /// Starts the navigation phase once login is complete: sends the first
    /// cursor-forward keystroke and awaits the hot-board list.
    pub fn begin_navigation(&mut self) -> (a: SessionAction)
        requires
            old(self)@.wf(),
            old(self)@.step == Step::LoggedIn,
        ensures
            final(self)@.wf(),
            final(self)@ == (SessionModel { step: Step::NavHotBoards, ..old(self)@ }),
            a@ == ActionModel::Write(arrow_right()),
    {
        self.step = Step::NavHotBoards;
        SessionAction::Write(arrow_right_vec())
    }

    /// Feeds one transport outcome through the automaton: data is replayed
    /// onto the screen, quiescence triggers the step's decision. The caller
    /// performs the returned action. A malformed control sequence is fatal:
    /// the session fails and the tokenizer is reset.
    pub fn on_event(&mut self, ev: SessionEvent) -> (r: Result<SessionAction, ParseError>)
        requires
            old(self)@.wf(),
        ensures
            final(self)@.wf(),
            match spec_on_event(old(self)@, ev@) {
                Ok(sa) => r matches Ok(act) && act@ == sa.1 && final(self)@ == sa.0,
                Err(e) => r matches Err(e2) && e2 == e && final(self)@ == (SessionModel {
                    screen: ScreenModel { tokenizer: initial_tokenizer(), ..old(self)@.screen },
                    step: Step::Failed,
                    ..old(self)@
                }),
            },
    {
        match ev {
            SessionEvent::Data(bytes) => {
                match self.screen.process(bytes.as_slice()) {
                    Err(e) => {
                        self.step = Step::Failed;
                        Err(e)
                    },
                    Ok(()) => Ok(self.step_data()),
                }
            },
            SessionEvent::TimedOut => Ok(self.step_timeout()),
        }
    }
}

impl SessionModel {
    pub open spec fn wf(self) -> bool {
        self.screen.wf()
    }
}

} // verus!
