//! Session automaton behaviour: the login dialogue end to end, credential
//! rejection, the bounded dismissal loop, and navigation.

use encoding::types::Encoding;

use ptt_crawler::ansi::ParseError;
use ptt_crawler::error::CrawlerError;
use ptt_crawler::session::Session;
use ptt_crawler::session::SessionAction;
use ptt_crawler::session::SessionEvent;
use ptt_crawler::session::Step;

fn big5(text: &str) -> Vec<u8> {
    encoding::all::BIG5_2003
        .encode(text, encoding::types::EncoderTrap::Strict)
        .expect("encoding failed")
}

fn new_session() -> Session {
    Session::new(b"user".to_vec(), b"secret".to_vec())
}

fn data(bytes: Vec<u8>) -> SessionEvent {
    SessionEvent::Data(bytes)
}

fn feed(session: &mut Session, ev: SessionEvent) -> SessionAction {
    session.on_event(ev).expect("parse error")
}

#[test]
fn login_dialogue_reaches_logged_in() {
    let mut session = new_session();

    // The prompt arrives: the credentials are submitted.
    let action = feed(&mut session, data(big5("請輸入代號")));
    match action {
        SessionAction::Write(bytes) => assert_eq!(bytes, b"user\r\nsecret\r\n".to_vec()),
        other => panic!("expected a write, got {:?}", other),
    }
    assert_eq!(session.current_step(), Step::AwaitWelcome);

    // The welcome marker arrives without the menu: one dismissing space.
    let action = feed(&mut session, data(big5("歡迎您再度拜訪")));
    match action {
        SessionAction::Write(bytes) => assert_eq!(bytes, vec![b' ']),
        _ => panic!("expected a write"),
    }
    assert_eq!(session.current_step(), Step::DismissDrain);

    // The menu arrives while draining; nothing happens until quiet.
    assert!(matches!(feed(&mut session, data(big5("主功能表"))), SessionAction::Continue));
    assert_eq!(session.current_step(), Step::DismissDrain);

    // Quiescence: the menu is there, login is complete.
    assert!(matches!(feed(&mut session, SessionEvent::TimedOut), SessionAction::Complete));
    assert_eq!(session.current_step(), Step::LoggedIn);
}

#[test]
fn prompt_wait_is_retried_without_bound() {
    let mut session = new_session();
    for _ in 0..10 {
        assert!(matches!(feed(&mut session, SessionEvent::TimedOut), SessionAction::Continue));
        assert_eq!(session.current_step(), Step::AwaitPrompt);
    }
    assert!(matches!(feed(&mut session, data(b"noise".to_vec())), SessionAction::Continue));
    assert_eq!(session.current_step(), Step::AwaitPrompt);
}

#[test]
fn welcome_found_only_at_quiescence_still_proceeds() {
    let mut session = new_session();
    feed(&mut session, data(big5("請輸入代號")));
    // The marker arrives split across reads, closing only at the timeout check.
    let whole = big5("歡迎您再度拜訪");
    let (a, b) = whole.split_at(3);
    assert!(matches!(feed(&mut session, data(a.to_vec())), SessionAction::Continue));
    assert!(matches!(feed(&mut session, data(b.to_vec())), SessionAction::Write(_)));
    assert_eq!(session.current_step(), Step::DismissDrain);
}

#[test]
fn rejected_credentials_fail_typed() {
    let mut session = new_session();
    feed(&mut session, data(big5("請輸入代號")));
    assert_eq!(session.current_step(), Step::AwaitWelcome);
    assert!(matches!(feed(&mut session, data(big5("請重新輸入"))), SessionAction::Continue));
    match feed(&mut session, SessionEvent::TimedOut) {
        SessionAction::Fail(e) => assert_eq!(e, CrawlerError::UsernameOrPasswordWrong),
        _ => panic!("expected a failure"),
    }
    assert_eq!(session.current_step(), Step::Failed);
}

#[test]
fn unexplained_login_outcome_fails_with_code_one() {
    let mut session = new_session();
    feed(&mut session, data(big5("請輸入代號")));
    assert!(matches!(feed(&mut session, data(b"loading...".to_vec())), SessionAction::Continue));
    match feed(&mut session, SessionEvent::TimedOut) {
        SessionAction::Fail(e) => assert_eq!(e, CrawlerError::SomethingWrong(1)),
        _ => panic!("expected a failure"),
    }
}

#[test]
fn menu_never_appearing_fails_with_code_two() {
    let mut session = new_session();
    feed(&mut session, data(big5("請輸入代號")));
    // Welcome arrives, menu never does: the first space is sent here.
    match feed(&mut session, data(big5("歡迎您再度拜訪"))) {
        SessionAction::Write(bytes) => assert_eq!(bytes, vec![b' ']),
        _ => panic!("expected a write"),
    }
    // Five more quiet periods, five more spaces.
    for _ in 0..5 {
        match feed(&mut session, SessionEvent::TimedOut) {
            SessionAction::Write(bytes) => assert_eq!(bytes, vec![b' ']),
            _ => panic!("expected a write"),
        }
        assert_eq!(session.current_step(), Step::DismissDrain);
    }
    // More than five blank keystrokes sent without the menu: give up.
    match feed(&mut session, SessionEvent::TimedOut) {
        SessionAction::Fail(e) => assert_eq!(e, CrawlerError::SomethingWrong(2)),
        _ => panic!("expected a failure"),
    }
    assert_eq!(session.current_step(), Step::Failed);
}

fn logged_in_session() -> Session {
    let mut session = new_session();
    feed(&mut session, data(big5("請輸入代號")));
    feed(&mut session, data(big5("歡迎您再度拜訪")));
    feed(&mut session, data(big5("主功能表")));
    feed(&mut session, SessionEvent::TimedOut);
    assert_eq!(session.current_step(), Step::LoggedIn);
    session
}

#[test]
fn navigation_reaches_the_board() {
    let mut session = logged_in_session();

    match session.begin_navigation() {
        SessionAction::Write(bytes) => assert_eq!(bytes, vec![27, b'[', b'C']),
        _ => panic!("expected a write"),
    }
    assert_eq!(session.current_step(), Step::NavHotBoards);

    match feed(&mut session, data(big5("即時熱門看板"))) {
        SessionAction::Write(bytes) => assert_eq!(bytes, vec![27, b'[', b'A']),
        _ => panic!("expected a write"),
    }
    assert_eq!(session.current_step(), Step::NavCursor);

    // The cursor lands on the list entry: row 20, column 11, one-based.
    assert!(matches!(feed(&mut session, data(b"\x1b[20;11H".to_vec())), SessionAction::Write(_)));
    assert_eq!(session.current_step(), Step::NavBoardName);

    assert!(matches!(feed(&mut session, data(b"Gossiping".to_vec())), SessionAction::Write(_)));
    assert_eq!(session.current_step(), Step::NavAnyKey);

    assert!(matches!(feed(&mut session, data(big5("請按任意鍵繼續"))), SessionAction::Write(_)));
    assert_eq!(session.current_step(), Step::NavBoardTitle);

    assert!(matches!(feed(&mut session, data(big5("看板《Gossiping》"))), SessionAction::Complete));
    assert_eq!(session.current_step(), Step::BoardEntered);
}

#[test]
fn intermediate_navigation_waits_proceed_at_quiescence() {
    let mut session = logged_in_session();
    session.begin_navigation();
    assert!(matches!(feed(&mut session, SessionEvent::TimedOut), SessionAction::Write(_)));
    assert_eq!(session.current_step(), Step::NavCursor);
    assert!(matches!(feed(&mut session, SessionEvent::TimedOut), SessionAction::Write(_)));
    assert_eq!(session.current_step(), Step::NavBoardName);
}

#[test]
fn missing_board_title_fails_with_code_three() {
    let mut session = logged_in_session();
    session.begin_navigation();
    for _ in 0..4 {
        feed(&mut session, SessionEvent::TimedOut);
    }
    assert_eq!(session.current_step(), Step::NavBoardTitle);
    match feed(&mut session, SessionEvent::TimedOut) {
        SessionAction::Fail(e) => assert_eq!(e, CrawlerError::SomethingWrong(3)),
        _ => panic!("expected a failure"),
    }
    assert_eq!(session.current_step(), Step::Failed);
}

#[test]
fn parse_error_is_fatal_to_the_session() {
    let mut session = new_session();
    let err = session
        .on_event(SessionEvent::Data(b"\x1b[1;2;3A".to_vec()))
        .expect_err("should fail");
    assert_eq!(err, ParseError::ArityMismatch(b'A'));
    assert_eq!(session.current_step(), Step::Failed);
}

#[test]
fn error_messages_render() {
    assert_eq!(CrawlerError::UsernameOrPasswordWrong.to_string(), "帳號或密碼錯誤");
    assert_eq!(CrawlerError::SomethingWrong(2).to_string(), "好像哪裡怪怪的？ Code: 2");
    assert_eq!(CrawlerError::SomethingWrong(42).to_string(), "好像哪裡怪怪的？ Code: 42");
    assert_eq!(CrawlerError::SomethingWrong(0).to_string(), "好像哪裡怪怪的？ Code: 0");
    assert_eq!(
        CrawlerError::SomethingWrong(4294967295).to_string(),
        "好像哪裡怪怪的？ Code: 4294967295"
    );
}
