//! Tokenizer behaviour: plain text, the command table, parameter defaults,
//! arity errors, and state carried across chunk boundaries.

use ptt_crawler::ansi::AnsiToken;
use ptt_crawler::ansi::EraseOption;
use ptt_crawler::ansi::ParseError;
use ptt_crawler::ansi::ScanMode;
use ptt_crawler::ansi::TokenizerState;
use ptt_crawler::ansi::tokenize;

fn tokens_of(bytes: &[u8]) -> Vec<AnsiToken> {
    let mut state = TokenizerState::new();
    tokenize(&mut state, bytes).expect("tokenize failed")
}

fn error_of(bytes: &[u8]) -> ParseError {
    let mut state = TokenizerState::new();
    tokenize(&mut state, bytes).expect_err("tokenize unexpectedly succeeded")
}

#[test]
fn text_without_escape_is_one_token() {
    let input = b"hello, world \x07\x00 end".to_vec();
    let tokens = tokens_of(&input);
    assert_eq!(tokens.len(), 1);
    match &tokens[0] {
        AnsiToken::Text(bytes) => assert_eq!(bytes, &input),
        other => panic!("expected a text token, got {:?}", other),
    }
}

#[test]
fn empty_input_yields_no_tokens() {
    let tokens = tokens_of(b"");
    assert_eq!(tokens.len(), 0);
}

#[test]
fn cursor_up_with_parameter() {
    let tokens = tokens_of(b"\x1b[5A");
    assert_eq!(tokens.len(), 1);
    assert!(matches!(tokens[0], AnsiToken::CursorUp(5)));
}

#[test]
fn cursor_up_default_parameter() {
    let tokens = tokens_of(b"\x1b[A");
    assert_eq!(tokens.len(), 1);
    assert!(matches!(tokens[0], AnsiToken::CursorUp(1)));
}

#[test]
fn cursor_up_empty_parameter_defaults() {
    let tokens = tokens_of(b"\x1b[;A");
    assert_eq!(tokens.len(), 1);
    assert!(matches!(tokens[0], AnsiToken::CursorUp(1)));
}

#[test]
fn trailing_empty_field_is_absent() {
    let tokens = tokens_of(b"\x1b[1;A");
    assert_eq!(tokens.len(), 1);
    assert!(matches!(tokens[0], AnsiToken::CursorUp(1)));
}

#[test]
fn leading_empty_field_keeps_its_position() {
    let tokens = tokens_of(b"\x1b[;5H");
    assert_eq!(tokens.len(), 1);
    assert!(matches!(tokens[0], AnsiToken::CursorPosition(1, 5)));
}

#[test]
fn graphic_attribute_codes_are_low_bytes() {
    let tokens = tokens_of(b"\x1b[256m\x1b[300m\x1b[1;;3m");
    assert_eq!(tokens.len(), 3);
    assert!(matches!(tokens[0], AnsiToken::ResetGraphic));
    match &tokens[1] {
        AnsiToken::SelectGraphic(codes) => assert_eq!(codes, &vec![44u8]),
        other => panic!("expected graphic attributes, got {:?}", other),
    }
    match &tokens[2] {
        AnsiToken::SelectGraphic(codes) => assert_eq!(codes, &vec![1u8, 255u8, 3u8]),
        other => panic!("expected graphic attributes, got {:?}", other),
    }
}

#[test]
fn too_many_parameters_is_an_error() {
    assert_eq!(error_of(b"\x1b[1;2;3A"), ParseError::ArityMismatch(b'A'));
}

#[test]
fn movement_commands_resolve() {
    let tokens = tokens_of(b"\x1b[2B\x1b[3C\x1b[4D\x1b[5E\x1b[6F\x1b[7G");
    assert_eq!(tokens.len(), 6);
    assert!(matches!(tokens[0], AnsiToken::CursorDown(2)));
    assert!(matches!(tokens[1], AnsiToken::CursorForward(3)));
    assert!(matches!(tokens[2], AnsiToken::CursorBack(4)));
    assert!(matches!(tokens[3], AnsiToken::CursorNextLine(5)));
    assert!(matches!(tokens[4], AnsiToken::CursorPreviousLine(6)));
    assert!(matches!(tokens[5], AnsiToken::CursorHoriAbs(7)));
}

#[test]
fn cursor_position_two_parameters() {
    let tokens = tokens_of(b"\x1b[10;5H");
    assert_eq!(tokens.len(), 1);
    assert!(matches!(tokens[0], AnsiToken::CursorPosition(10, 5)));
}

#[test]
fn cursor_position_defaults() {
    let tokens = tokens_of(b"\x1b[H\x1b[7f");
    assert_eq!(tokens.len(), 2);
    assert!(matches!(tokens[0], AnsiToken::CursorPosition(1, 1)));
    assert!(matches!(tokens[1], AnsiToken::CursorPosition(7, 1)));
}

#[test]
fn erase_display_options() {
    let tokens = tokens_of(b"\x1b[J\x1b[1J\x1b[2J\x1b[3J");
    assert_eq!(tokens.len(), 4);
    assert!(matches!(tokens[0], AnsiToken::EraseDisplay(EraseOption::EraseToEnd)));
    assert!(matches!(tokens[1], AnsiToken::EraseDisplay(EraseOption::EraseToBeginning)));
    assert!(matches!(tokens[2], AnsiToken::EraseDisplay(EraseOption::EraseEntire)));
    assert!(matches!(tokens[3], AnsiToken::EraseDisplay(EraseOption::EraseEntireAndBuffer)));
}

#[test]
fn erase_display_bad_parameter() {
    assert_eq!(error_of(b"\x1b[5J"), ParseError::BadEraseDisplayParam(5));
}

#[test]
fn erase_line_options_and_bad_parameter() {
    let tokens = tokens_of(b"\x1b[K\x1b[1K\x1b[2K");
    assert_eq!(tokens.len(), 3);
    assert!(matches!(tokens[0], AnsiToken::EraseLine(EraseOption::EraseToEnd)));
    assert!(matches!(tokens[1], AnsiToken::EraseLine(EraseOption::EraseToBeginning)));
    assert!(matches!(tokens[2], AnsiToken::EraseLine(EraseOption::EraseEntire)));
    assert_eq!(error_of(b"\x1b[3K"), ParseError::BadEraseLineParam(3));
}

#[test]
fn scroll_commands_resolve() {
    let tokens = tokens_of(b"\x1b[2S\x1b[T");
    assert_eq!(tokens.len(), 2);
    assert!(matches!(tokens[0], AnsiToken::ScrollUp(2)));
    assert!(matches!(tokens[1], AnsiToken::ScrollDown(1)));
}

#[test]
fn graphic_attributes_resolve() {
    let tokens = tokens_of(b"\x1b[m\x1b[0m\x1b[1;31m");
    assert_eq!(tokens.len(), 3);
    assert!(matches!(tokens[0], AnsiToken::ResetGraphic));
    assert!(matches!(tokens[1], AnsiToken::ResetGraphic));
    match &tokens[2] {
        AnsiToken::SelectGraphic(codes) => assert_eq!(codes, &vec![1u8, 31u8]),
        other => panic!("expected graphic attributes, got {:?}", other),
    }
}

#[test]
fn single_graphic_attribute() {
    let tokens = tokens_of(b"\x1b[7m");
    assert_eq!(tokens.len(), 1);
    match &tokens[0] {
        AnsiToken::SelectGraphic(codes) => assert_eq!(codes, &vec![7u8]),
        other => panic!("expected graphic attributes, got {:?}", other),
    }
}

#[test]
fn aux_port_commands() {
    let tokens = tokens_of(b"\x1b[5i\x1b[4i");
    assert_eq!(tokens.len(), 2);
    assert!(matches!(tokens[0], AnsiToken::AuxOn));
    assert!(matches!(tokens[1], AnsiToken::AuxOff));
    assert_eq!(error_of(b"\x1b[6i"), ParseError::BadAuxParam(6));
    assert_eq!(error_of(b"\x1b[i"), ParseError::ArityMismatch(b'i'));
}

#[test]
fn save_and_restore_cursor() {
    let tokens = tokens_of(b"\x1b[s\x1b[u");
    assert_eq!(tokens.len(), 2);
    assert!(matches!(tokens[0], AnsiToken::SaveCursorPos));
    assert!(matches!(tokens[1], AnsiToken::RestoreCursorPos));
    assert_eq!(error_of(b"\x1b[5s"), ParseError::ArityMismatch(b's'));
}

#[test]
fn unknown_final_byte_is_kept() {
    let tokens = tokens_of(b"\x1b[3z");
    assert_eq!(tokens.len(), 1);
    match &tokens[0] {
        AnsiToken::UnknownCsi(params, final_byte) => {
            assert_eq!(params, &vec![Some(3)]);
            assert_eq!(*final_byte, b'z');
        },
        other => panic!("expected an unknown control sequence, got {:?}", other),
    }
}

#[test]
fn unknown_escape_is_kept() {
    let tokens = tokens_of(b"ab\x1bMcd");
    assert_eq!(tokens.len(), 3);
    match &tokens[0] {
        AnsiToken::Text(bytes) => assert_eq!(bytes, &b"ab".to_vec()),
        other => panic!("expected text, got {:?}", other),
    }
    assert!(matches!(tokens[1], AnsiToken::UnknownEscape(b'M')));
    match &tokens[2] {
        AnsiToken::Text(bytes) => assert_eq!(bytes, &b"cd".to_vec()),
        other => panic!("expected text, got {:?}", other),
    }
}

#[test]
fn undefined_byte_in_control_sequence() {
    assert_eq!(error_of(b"\x1b[\x07"), ParseError::UndefinedByte(0x07));
}

#[test]
fn non_digit_parameter_byte_fails() {
    assert_eq!(error_of(b"\x1b[?25h"), ParseError::BadParamByte(b'?'));
}

#[test]
fn overflowing_parameter_fails() {
    assert_eq!(error_of(b"\x1b[99999999999A"), ParseError::ParamOverflow);
}

#[test]
fn split_control_sequence_matches_unsplit() {
    let input = b"ab\x1b[12;34Hcd".to_vec();
    let mut whole_state = TokenizerState::new();
    let whole = tokenize(&mut whole_state, &input).expect("tokenize failed");

    // Split at every boundary that falls inside the escape sequence.
    for cut in 3..=9 {
        let mut state = TokenizerState::new();
        let mut first = tokenize(&mut state, &input[..cut]).expect("first chunk failed");
        let second = tokenize(&mut state, &input[cut..]).expect("second chunk failed");
        first.extend(second);
        assert_eq!(format!("{:?}", first), format!("{:?}", whole));
        assert_eq!(state.mode, whole_state.mode);
    }
}

#[test]
fn state_carries_across_calls() {
    let mut state = TokenizerState::new();
    let first = tokenize(&mut state, b"\x1b").expect("first chunk failed");
    assert_eq!(first.len(), 0);
    assert_eq!(state.mode, ScanMode::Escaping);
    let second = tokenize(&mut state, b"[2").expect("second chunk failed");
    assert_eq!(second.len(), 0);
    assert_eq!(state.mode, ScanMode::InControlSequence);
    let third = tokenize(&mut state, b"Jok").expect("third chunk failed");
    assert_eq!(third.len(), 2);
    assert!(matches!(third[0], AnsiToken::EraseDisplay(EraseOption::EraseEntire)));
    match &third[1] {
        AnsiToken::Text(bytes) => assert_eq!(bytes, &b"ok".to_vec()),
        other => panic!("expected text, got {:?}", other),
    }
    assert_eq!(state.mode, ScanMode::Text);
}

#[test]
fn error_resets_the_carried_state() {
    let mut state = TokenizerState::new();
    tokenize(&mut state, b"\x1b[1;2;3A").expect_err("should fail");
    assert_eq!(state.mode, ScanMode::Text);
    let after = tokenize(&mut state, b"ok").expect("tokenize failed");
    assert_eq!(after.len(), 1);
}
