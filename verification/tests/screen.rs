//! Virtual-screen behaviour: writes, control bytes, erases, cursor
//! positioning, boundary policy, substring search and rendering.

use encoding::types::Encoding;

use ptt_crawler::screen::SCREEN_HEIGHT;
use ptt_crawler::screen::SCREEN_WIDTH;
use ptt_crawler::screen::Screen;

fn big5(text: &str) -> Vec<u8> {
    encoding::all::BIG5_2003
        .encode(text, encoding::types::EncoderTrap::Strict)
        .expect("encoding failed")
}

#[test]
fn plain_text_fills_the_first_row() {
    let mut screen = Screen::new();
    screen.process(b"abc").expect("process failed");
    assert_eq!(screen.cell(0, 0), b'a');
    assert_eq!(screen.cell(0, 1), b'b');
    assert_eq!(screen.cell(0, 2), b'c');
    assert_eq!(screen.cursor_position(), (0, 3));
}

#[test]
fn carriage_return_resets_the_column_without_advancing_the_row() {
    let mut screen = Screen::new();
    screen.process(b"A").expect("process failed");
    assert_eq!(screen.cell(0, 0), b'A');
    assert_eq!(screen.cursor_position(), (0, 1));
    screen.process(b"\r").expect("process failed");
    assert_eq!(screen.cursor_position(), (0, 0));
    screen.process(b"B").expect("process failed");
    // Both were written at column 0 of the first row; the second overwrote
    // the first, and the row never advanced.
    assert_eq!(screen.cell(0, 0), b'B');
    assert_eq!(screen.cursor_position(), (0, 1));
}

#[test]
fn line_feed_advances_the_row() {
    let mut screen = Screen::new();
    screen.process(b"a\nb").expect("process failed");
    assert_eq!(screen.cell(0, 0), b'a');
    assert_eq!(screen.cell(1, 1), b'b');
    assert_eq!(screen.cursor_position(), (1, 2));
}

#[test]
fn backspace_blanks_and_steps_back() {
    let mut screen = Screen::new();
    screen.process(b"ab\x08").expect("process failed");
    assert_eq!(screen.cell(0, 2), b' ');
    assert_eq!(screen.cursor_position(), (0, 1));
    // At the first column the cursor stays put.
    let mut screen2 = Screen::new();
    screen2.process(b"\x08").expect("process failed");
    assert_eq!(screen2.cursor_position(), (0, 0));
}

#[test]
fn cursor_position_is_one_based() {
    let mut screen = Screen::new();
    screen.process(b"\x1b[5;7Hx").expect("process failed");
    assert_eq!(screen.cell(4, 6), b'x');
    screen.process(b"\x1b[10;5H").expect("process failed");
    assert_eq!(screen.cursor_position(), (9, 4));
}

#[test]
fn cursor_position_ignores_prior_position() {
    let mut screen = Screen::new();
    screen.process(b"some text\n\nmore").expect("process failed");
    screen.process(b"\x1b[10;5H").expect("process failed");
    assert_eq!(screen.cursor_position(), (9, 4));
    screen.process(b"\x1b[10;5H").expect("process failed");
    assert_eq!(screen.cursor_position(), (9, 4));
}

#[test]
fn erase_display_entire_blanks_everything_and_keeps_the_cursor() {
    let mut screen = Screen::new();
    screen.process(b"filled with text\nand more\x1b[3;3Hxyz").expect("process failed");
    let cursor_before = screen.cursor_position();
    screen.process(b"\x1b[2J").expect("process failed");
    for r in 0..SCREEN_HEIGHT {
        for c in 0..SCREEN_WIDTH {
            assert_eq!(screen.cell(r, c), b' ');
        }
    }
    assert_eq!(screen.cursor_position(), cursor_before);
}

#[test]
fn erase_line_to_end_blanks_the_rest_of_the_row() {
    let mut screen = Screen::new();
    screen.process(b"abcdef\x1b[1;4H\x1b[K").expect("process failed");
    assert_eq!(screen.cell(0, 0), b'a');
    assert_eq!(screen.cell(0, 1), b'b');
    assert_eq!(screen.cell(0, 2), b'c');
    assert_eq!(screen.cell(0, 3), b' ');
    assert_eq!(screen.cell(0, 4), b' ');
    assert_eq!(screen.cell(0, 5), b' ');
}

#[test]
fn writing_past_the_last_column_drops_bytes() {
    let mut screen = Screen::new();
    let mut row: Vec<u8> = Vec::new();
    for i in 0..85 {
        row.push(b'a' + (i % 26) as u8);
    }
    screen.process(&row).expect("process failed");
    // The first 80 bytes landed; the overflowing five were dropped and the
    // cursor rests one past the last cell.
    assert_eq!(screen.cell(0, 79), b'a' + (79 % 26) as u8);
    assert_eq!(screen.cursor_position(), (0, 80));
    // A carriage return recovers the cursor.
    screen.process(b"\rZ").expect("process failed");
    assert_eq!(screen.cell(0, 0), b'Z');
}

#[test]
fn line_feed_stays_on_the_last_row() {
    let mut screen = Screen::new();
    let mut feeds: Vec<u8> = Vec::new();
    for _ in 0..30 {
        feeds.push(b'\n');
    }
    screen.process(&feeds).expect("process failed");
    assert_eq!(screen.cursor_position(), (SCREEN_HEIGHT - 1, 0));
    screen.process(b"x").expect("process failed");
    assert_eq!(screen.cell(SCREEN_HEIGHT - 1, 0), b'x');
}

#[test]
fn out_of_range_cursor_position_is_clamped() {
    let mut screen = Screen::new();
    screen.process(b"\x1b[99;99H").expect("process failed");
    assert_eq!(screen.cursor_position(), (SCREEN_HEIGHT - 1, SCREEN_WIDTH - 1));
    screen.process(b"\x1b[0;0H").expect("process failed");
    assert_eq!(screen.cursor_position(), (0, 0));
}

#[test]
fn ignored_tokens_leave_the_screen_alone() {
    let mut screen = Screen::new();
    screen.process(b"ab\x1b[1m\x1b[2S\x1b[s\x1b[u\x1b[5i").expect("process failed");
    assert_eq!(screen.cell(0, 0), b'a');
    assert_eq!(screen.cell(0, 1), b'b');
    assert_eq!(screen.cursor_position(), (0, 2));
}

#[test]
fn parse_error_keeps_the_grid() {
    let mut screen = Screen::new();
    screen.process(b"ab").expect("process failed");
    screen.process(b"\x1b[1;2;3A").expect_err("should fail");
    assert_eq!(screen.cell(0, 0), b'a');
    assert_eq!(screen.cell(0, 1), b'b');
    // The tokenizer was reset: plain text still works.
    screen.process(b"c").expect("process failed");
    assert_eq!(screen.cell(0, 2), b'c');
}

#[test]
fn contains_finds_decoded_text() {
    let mut screen = Screen::new();
    let bytes = big5("歡迎您再度拜訪");
    screen.process(&bytes).expect("process failed");
    assert!(screen.contains("歡迎您再度拜訪"));
    assert!(screen.contains("再度"));
    assert!(!screen.contains("主功能表"));
}

#[test]
fn contains_finds_ascii_text_on_a_later_row() {
    let mut screen = Screen::new();
    screen.process(b"first\n\rGossiping board").expect("process failed");
    assert!(screen.contains("Gossiping"));
    assert!(!screen.contains("gossiping"));
}

#[test]
fn render_shows_every_row() {
    let mut screen = Screen::new();
    screen.process(b"ab").expect("process failed");
    let rendered = screen.render();
    let lines: Vec<&str> = rendered.split('\n').collect();
    // 24 rows, each ended by a newline, leaves a final empty piece.
    assert_eq!(lines.len(), SCREEN_HEIGHT + 1);
    assert!(lines[0].starts_with("ab"));
    assert_eq!(lines[0].len(), SCREEN_WIDTH);
    assert_eq!(lines[SCREEN_HEIGHT], "");
}

#[test]
fn render_decodes_double_byte_text() {
    let mut screen = Screen::new();
    screen.process(&big5("主功能表")).expect("process failed");
    let rendered = screen.render();
    assert!(rendered.contains("主功能表"));
}
