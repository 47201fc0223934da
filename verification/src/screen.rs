//! Virtual screen: a fixed 24x80 grid of raw bytes plus a cursor, replaying
//! the tokenizer's output. Cells hold raw bytes, not decoded characters: the
//! remote's double-byte text encoding is decoded only when rendering.
//!
//! Boundary policy (the reference behaviour leaves it open, so it is fixed
//! here): writing a byte while the cursor column already equals the width
//! drops the byte; a line feed on the last row stays on the last row; an
//! absolute cursor position is clamped into the grid.

use vstd::prelude::*;
use vstd::pervasive::VecAdditionalExecFns;

use crate::codec::big5_decoded;
use crate::codec::chars_of;
use crate::codec::contains_seq;
use crate::codec::decode_big5;
use crate::codec::seq_contains;

use crate::ansi::AnsiToken;
use crate::ansi::ParseError;
use crate::ansi::EraseOption;
use crate::ansi::TokenModel;
use crate::ansi::TokenizerModel;
use crate::ansi::TokenizerState;
use crate::ansi::initial_tokenizer;
use crate::ansi::spec_tokenize;
use crate::ansi::tokens_view;
use crate::ansi::tokenize;

verus! {

pub const SCREEN_HEIGHT: usize = 24;

pub const SCREEN_WIDTH: usize = 80;

/// Number of cells of the whole grid, stored row-major.
pub const GRID_CELLS: usize = 24 * 80;

/// The blank cell.
pub const SPACE_BYTE: u8 = 32;

/// The virtual screen: its own tokenizer state (so a control sequence may
/// span two reads), the grid cells row-major, and the cursor.
pub struct Screen {
    tokenizer: TokenizerState,
    lines: Vec<u8>,
    cursor_row: usize,
    cursor_col: usize,
}

/// Mathematical model of the screen.
pub struct ScreenModel {
    pub tokenizer: TokenizerModel,
    pub grid: Seq<u8>,
    pub cursor_row: int,
    pub cursor_col: int,
}

impl View for Screen {
    type V = ScreenModel;

    closed spec fn view(&self) -> ScreenModel {
        ScreenModel {
            tokenizer: self.tokenizer@,
            grid: self.lines@,
            cursor_row: self.cursor_row as int,
            cursor_col: self.cursor_col as int,
        }
    }
}

/// Cell `(r, c)` of the row-major grid.
pub open spec fn cell_index(r: int, c: int) -> int {
    r * (SCREEN_WIDTH as int) + c
}

/// Clamps `v` into `[0, max]`.
pub open spec fn clamp_to(v: int, max: int) -> int {
    if v < 0 {
        0
    } else if v > max {
        max
    } else {
        v
    }
}

impl ScreenModel {
    /// The grid is full-size and the cursor inside it; the column may rest
    /// one past the last cell right after a write in the last column.
    pub open spec fn wf(self) -> bool {
        &&& self.grid.len() == GRID_CELLS
        &&& 0 <= self.cursor_row < SCREEN_HEIGHT
        &&& 0 <= self.cursor_col <= SCREEN_WIDTH
    }

    /// A printable byte lands in the cell under the cursor and advances the
    /// column; one written past the last column is dropped.
    pub open spec fn spec_type_in(self, byte: u8) -> ScreenModel {
        if self.cursor_col < SCREEN_WIDTH {
            ScreenModel {
                grid: self.grid.update(cell_index(self.cursor_row, self.cursor_col), byte),
                cursor_col: self.cursor_col + 1,
                ..self
            }
        } else {
            self
        }
    }

    /// Backspace blanks the cell under the cursor and steps the column back,
    /// stopping at the first column.
    pub open spec fn spec_backspace(self) -> ScreenModel {
        let erased = if self.cursor_col < SCREEN_WIDTH {
            ScreenModel {
                grid: self.grid.update(cell_index(self.cursor_row, self.cursor_col), SPACE_BYTE),
                ..self
            }
        } else {
            self
        };
        if self.cursor_col > 0 {
            ScreenModel { cursor_col: self.cursor_col - 1, ..erased }
        } else {
            erased
        }
    }

    /// Line feed moves one row down, staying on the last row.
    pub open spec fn spec_line_feed(self) -> ScreenModel {
        if self.cursor_row < SCREEN_HEIGHT - 1 {
            ScreenModel { cursor_row: self.cursor_row + 1, ..self }
        } else {
            self
        }
    }

    /// Carriage return resets the column without advancing the row.
    pub open spec fn spec_carriage_return(self) -> ScreenModel {
        ScreenModel { cursor_col: 0, ..self }
    }

    /// A control byte inside a text run: backspace, line feed and carriage
    /// return act on the cursor; every other control byte is ignored.
    pub open spec fn spec_control(self, byte: u8) -> ScreenModel {
        if byte == 8 {
            self.spec_backspace()
        } else if byte == 10 {
            self.spec_line_feed()
        } else if byte == 13 {
            self.spec_carriage_return()
        } else {
            self
        }
    }

    /// One byte of a text run.
    pub open spec fn spec_put_byte(self, byte: u8) -> ScreenModel {
        if byte < 32 {
            self.spec_control(byte)
        } else {
            self.spec_type_in(byte)
        }
    }

    /// A whole text run, byte by byte.
    pub open spec fn spec_apply_text(self, bytes: Seq<u8>) -> ScreenModel
        decreases bytes.len(),
    {
        if bytes.len() == 0 {
            self
        } else {
            self.spec_put_byte(bytes[0]).spec_apply_text(bytes.drop_first())
        }
    }

    /// The protocol's 1-based cursor position, clamped into the grid.
    pub open spec fn spec_cursor_position(self, r: isize, c: isize) -> ScreenModel {
        ScreenModel {
            cursor_row: clamp_to(r - 1, SCREEN_HEIGHT - 1),
            cursor_col: clamp_to(c - 1, SCREEN_WIDTH - 1),
            ..self
        }
    }

    /// Every cell blanked; the cursor stays put.
    pub open spec fn spec_erase_screen(self) -> ScreenModel {
        ScreenModel { grid: Seq::new(GRID_CELLS as nat, |i: int| SPACE_BYTE), ..self }
    }

    /// Blanks from the cursor to the end of its row; with `only_line` false,
    /// also every row below.
    pub open spec fn spec_erase_to_end(self, only_line: bool) -> ScreenModel {
        ScreenModel {
            grid: Seq::new(
                self.grid.len(),
                |i: int|
                    if (i / (SCREEN_WIDTH as int) == self.cursor_row && i % (SCREEN_WIDTH as int)
                        >= self.cursor_col) || (!only_line && i / (SCREEN_WIDTH as int)
                        > self.cursor_row) {
                        SPACE_BYTE
                    } else {
                        self.grid[i]
                    },
            ),
            ..self
        }
    }

    /// How one token mutates the screen. Text runs, absolute cursor
    /// positioning, erase-entire-display and erase-line-to-end are modeled;
    /// every other token is accepted and leaves the screen unchanged.
    pub open spec fn spec_apply_token(self, t: TokenModel) -> ScreenModel {
        match t {
            TokenModel::Text(bs) => self.spec_apply_text(bs),
            TokenModel::CursorPosition(r, c) => self.spec_cursor_position(r, c),
            TokenModel::EraseDisplay(o) => if o is EraseEntire {
                self.spec_erase_screen()
            } else {
                self
            },
            TokenModel::EraseLine(o) => if o is EraseToEnd {
                self.spec_erase_to_end(true)
            } else {
                self
            },
            _ => self,
        }
    }

    /// A token sequence, token by token in order.
    pub open spec fn spec_apply_tokens(self, ts: Seq<TokenModel>) -> ScreenModel
        decreases ts.len(),
    {
        if ts.len() == 0 {
            self
        } else {
            self.spec_apply_token(ts[0]).spec_apply_tokens(ts.drop_first())
        }
    }
}

/// A fresh screen: all cells blank, cursor at the origin, scanner fresh.
pub open spec fn initial_screen() -> ScreenModel {
    ScreenModel {
        tokenizer: initial_tokenizer(),
        grid: Seq::new(GRID_CELLS as nat, |i: int| SPACE_BYTE),
        cursor_row: 0,
        cursor_col: 0,
    }
}

/// What `process` does to the whole screen: tokenize the chunk from the
/// carried tokenizer state, then replay every token onto the grid.
pub open spec fn spec_process(s: ScreenModel, bytes: Seq<u8>) -> Result<ScreenModel, ParseError> {
    match spec_tokenize(s.tokenizer, bytes) {
        Ok(r) => Ok(ScreenModel { tokenizer: r.1, ..s }.spec_apply_tokens(r.0)),
        Err(e) => Err(e),
    }
}

/// Row `r` of a grid, as its byte sequence.
pub open spec fn row_seq(grid: Seq<u8>, r: int) -> Seq<u8> {
    grid.subrange(r * (SCREEN_WIDTH as int), r * (SCREEN_WIDTH as int) + (SCREEN_WIDTH as int))
}

/// The decoded text of some row holds `pat` as a substring.
pub open spec fn screen_contains(grid: Seq<u8>, pat: Seq<char>) -> bool {
    exists|r: int|
        0 <= r < SCREEN_HEIGHT && contains_seq(big5_decoded(#[trigger] row_seq(grid, r)), pat)
}

/// The decoded text of the first `upto` rows, each ended by a newline.
pub open spec fn spec_render(grid: Seq<u8>, upto: int) -> Seq<char>
    decreases upto,
{
    if upto <= 0 {
        Seq::empty()
    } else {
        spec_render(grid, upto - 1) + big5_decoded(row_seq(grid, upto - 1)) + seq!['\n']
    }
}

/// Erasing the entire display blanks every cell and moves nothing else:
/// the cursor, whatever the prior content, stays put.
pub proof fn lemma_erase_display_entire(s: ScreenModel)
    requires
        s.wf(),
    ensures
        ({
            let s2 = s.spec_apply_token(TokenModel::EraseDisplay(EraseOption::EraseEntire));
            &&& s2.grid.len() == GRID_CELLS
            &&& forall|i: int| 0 <= i < GRID_CELLS ==> s2.grid[i] == SPACE_BYTE
            &&& s2.cursor_row == s.cursor_row
            &&& s2.cursor_col == s.cursor_col
        }),
{
}

/// An absolute cursor position token puts the cursor at the 1-based
/// `(r, c)` it names — zero-based `(r - 1, c - 1)` — whatever the prior
/// cursor position, and leaves the grid alone.
pub proof fn lemma_cursor_position(s: ScreenModel, r: isize, c: isize)
    requires
        1 <= r <= SCREEN_HEIGHT,
        1 <= c <= SCREEN_WIDTH,
    ensures
        ({
            let s2 = s.spec_apply_token(TokenModel::CursorPosition(r, c));
            &&& s2.cursor_row == r - 1
            &&& s2.cursor_col == c - 1
            &&& s2.grid == s.grid
        }),
{
}

/// A byte below 0x20, handled as a control byte inside text runs.
pub fn is_control(byte: u8) -> (r: bool)
    ensures
        r == (byte < 32),
{
    byte < 32
}

impl Screen {
    pub fn new() -> (r: Screen)
        ensures
            r@ == initial_screen(),
            r@.wf(),
    {
        let mut lines: Vec<u8> = Vec::new();
        let mut i: usize = 0;
        while i < GRID_CELLS
            invariant
                i <= GRID_CELLS,
                lines@.len() == i,
                forall|j: int| 0 <= j < i ==> lines@[j] == SPACE_BYTE,
            decreases GRID_CELLS - i,
        {
            lines.push(SPACE_BYTE);
            i += 1;
        }
        let r = Screen { tokenizer: TokenizerState::new(), lines, cursor_row: 0, cursor_col: 0 };
        proof {
            assert(r@.grid =~= initial_screen().grid);
        }
        r
    }

    /// Writes one printable byte at the cursor.
    pub fn type_in(&mut self, byte: u8)
        requires
            old(self)@.wf(),
        ensures
            final(self)@ == old(self)@.spec_type_in(byte),
            final(self)@.wf(),
    {
        if self.cursor_col < SCREEN_WIDTH {
            self.lines.set(self.cursor_row * SCREEN_WIDTH + self.cursor_col, byte);
            self.cursor_col = self.cursor_col + 1;
        }
    }

    /// Blanks the cell under the cursor and steps the column back.
    pub fn backspace(&mut self)
        requires
            old(self)@.wf(),
        ensures
            final(self)@ == old(self)@.spec_backspace(),
            final(self)@.wf(),
    {
        if self.cursor_col < SCREEN_WIDTH {
            self.lines.set(self.cursor_row * SCREEN_WIDTH + self.cursor_col, SPACE_BYTE);
        }
        if self.cursor_col > 0 {
            self.cursor_col = self.cursor_col - 1;
        }
    }

    /// Handles a control byte found inside a text run.
    fn handle_control_byte(&mut self, byte: u8)
        requires
            old(self)@.wf(),
        ensures
            final(self)@ == old(self)@.spec_control(byte),
            final(self)@.wf(),
    {
        if byte == 8 {
            self.backspace();
        } else if byte == 10 {
            if self.cursor_row < SCREEN_HEIGHT - 1 {
                self.cursor_row = self.cursor_row + 1;
            }
        } else if byte == 13 {
            self.cursor_col = 0;
        }
    }

    /// Blanks every cell; the cursor stays put.
    pub fn erase_screen(&mut self)
        requires
            old(self)@.wf(),
        ensures
            final(self)@ == old(self)@.spec_erase_screen(),
            final(self)@.wf(),
    {
        let mut i: usize = 0;
        while i < GRID_CELLS
            invariant
                old(self)@.wf(),
                i <= GRID_CELLS,
                self.lines@.len() == GRID_CELLS,
                self.tokenizer == old(self).tokenizer,
                self.cursor_row == old(self).cursor_row,
                self.cursor_col == old(self).cursor_col,
                forall|j: int| 0 <= j < i ==> self.lines@[j] == SPACE_BYTE,
                forall|j: int| i <= j < GRID_CELLS ==> self.lines@[j] == old(self).lines@[j],
            decreases GRID_CELLS - i,
        {
            self.lines.set(i, SPACE_BYTE);
            i += 1;
        }
        proof {
            assert(self@.grid =~= old(self)@.spec_erase_screen().grid);
        }
    }

    /// Blanks from the cursor to the end of its row; with `only_line` false,
    /// also the whole area below the row.
    pub fn erase_to_end(&mut self, only_line: bool)
        requires
            old(self)@.wf(),
        ensures
            final(self)@ == old(self)@.spec_erase_to_end(only_line),
            final(self)@.wf(),
    {
        let row = self.cursor_row;
        let mut c: usize = self.cursor_col;
        while c < SCREEN_WIDTH
            invariant
                old(self)@.wf(),
                self.cursor_col <= c <= SCREEN_WIDTH,
                row == self.cursor_row,
                self.lines@.len() == GRID_CELLS,
                self.tokenizer == old(self).tokenizer,
                self.cursor_row == old(self).cursor_row,
                self.cursor_col == old(self).cursor_col,
                forall|j: int|
                    0 <= j < GRID_CELLS && cell_index(row as int, old(self)@.cursor_col) <= j
                        < cell_index(row as int, c as int) ==> self.lines@[j] == SPACE_BYTE,
                forall|j: int|
                    0 <= j < GRID_CELLS && !(cell_index(row as int, old(self)@.cursor_col) <= j
                        < cell_index(row as int, c as int)) ==> self.lines@[j] == old(
                        self,
                    ).lines@[j],
            decreases SCREEN_WIDTH - c,
        {
            self.lines.set(row * SCREEN_WIDTH + c, SPACE_BYTE);
            c += 1;
        }
        if !only_line {
            let mut r: usize = row + 1;
            while r < SCREEN_HEIGHT
                invariant
                    old(self)@.wf(),
                    row + 1 <= r <= SCREEN_HEIGHT,
                    row == self.cursor_row,
                    self.lines@.len() == GRID_CELLS,
                    self.tokenizer == old(self).tokenizer,
                    self.cursor_row == old(self).cursor_row,
                    self.cursor_col == old(self).cursor_col,
                    forall|j: int|
                        0 <= j < GRID_CELLS && (cell_index(row as int, old(self)@.cursor_col) <= j
                            < cell_index(row as int, SCREEN_WIDTH as int) || cell_index(
                            row as int + 1,
                            0,
                        ) <= j < cell_index(r as int, 0)) ==> self.lines@[j] == SPACE_BYTE,
                    forall|j: int|
                        0 <= j < GRID_CELLS && !(cell_index(row as int, old(self)@.cursor_col) <= j
                            < cell_index(row as int, SCREEN_WIDTH as int)) && !(cell_index(
                            row as int + 1,
                            0,
                        ) <= j < cell_index(r as int, 0)) ==> self.lines@[j] == old(
                            self,
                        ).lines@[j],
                decreases SCREEN_HEIGHT - r,
            {
                let mut c2: usize = 0;
                while c2 < SCREEN_WIDTH
                    invariant
                        old(self)@.wf(),
                        row + 1 <= r < SCREEN_HEIGHT,
                        c2 <= SCREEN_WIDTH,
                        row == self.cursor_row,
                        self.lines@.len() == GRID_CELLS,
                        self.tokenizer == old(self).tokenizer,
                        self.cursor_row == old(self).cursor_row,
                        self.cursor_col == old(self).cursor_col,
                        forall|j: int|
                            0 <= j < GRID_CELLS && (cell_index(row as int, old(self)@.cursor_col)
                                <= j < cell_index(row as int, SCREEN_WIDTH as int) || cell_index(
                                row as int + 1,
                                0,
                            ) <= j < cell_index(r as int, c2 as int)) ==> self.lines@[j]
                                == SPACE_BYTE,
                        forall|j: int|
                            0 <= j < GRID_CELLS && !(cell_index(row as int, old(self)@.cursor_col)
                                <= j < cell_index(row as int, SCREEN_WIDTH as int)) && !(cell_index(
                                row as int + 1,
                                0,
                            ) <= j < cell_index(r as int, c2 as int)) ==> self.lines@[j] == old(
                                self,
                            ).lines@[j],
                    decreases SCREEN_WIDTH - c2,
                {
                    self.lines.set(r * SCREEN_WIDTH + c2, SPACE_BYTE);
                    c2 += 1;
                }
                r += 1;
            }
        }
        proof {
            assert(self@.grid =~= old(self)@.spec_erase_to_end(only_line).grid);
        }
    }

    /// Applies one token to the grid and cursor.
    fn apply_token(&mut self, token: &AnsiToken)
        requires
            old(self)@.wf(),
        ensures
            final(self)@ == old(self)@.spec_apply_token(token@),
            final(self)@.wf(),
    {
        match token {
            AnsiToken::Text(text_bytes) => {
                let n = text_bytes.len();
                let mut k: usize = 0;
                proof {
                    assert(text_bytes@.skip(0) =~= text_bytes@);
                }
                while k < n
                    invariant
                        k <= n,
                        n == text_bytes@.len(),
                        self@.wf(),
                        self@.spec_apply_text(text_bytes@.skip(k as int)) == old(
                            self,
                        )@.spec_apply_text(text_bytes@),
                    decreases n - k,
                {
                    proof {
                        assert(text_bytes@.skip(k as int)[0] == text_bytes@[k as int]);
                        assert(text_bytes@.skip(k as int).drop_first() =~= text_bytes@.skip(k + 1));
                    }
                    let b = text_bytes[k];
                    if is_control(b) {
                        self.handle_control_byte(b);
                    } else {
                        self.type_in(b);
                    }
                    k += 1;
                }
                proof {
                    assert(text_bytes@.skip(n as int) =~= Seq::<u8>::empty());
                }
            },
            AnsiToken::CursorPosition(r, c) => {
                let rr = *r;
                let cc = *c;
                self.cursor_row = if rr < 1 {
                    0
                } else if rr > SCREEN_HEIGHT as isize {
                    SCREEN_HEIGHT - 1
                } else {
                    (rr - 1) as usize
                };
                self.cursor_col = if cc < 1 {
                    0
                } else if cc > SCREEN_WIDTH as isize {
                    SCREEN_WIDTH - 1
                } else {
                    (cc - 1) as usize
                };
            },
            AnsiToken::EraseDisplay(opt) => {
                match opt {
                    EraseOption::EraseEntire => self.erase_screen(),
                    _ => (),
                }
            },
            AnsiToken::EraseLine(opt) => {
                match opt {
                    EraseOption::EraseToEnd => self.erase_to_end(true),
                    _ => (),
                }
            },
            _ => (),
        }
    }

    /// Feeds one chunk of the byte stream through the tokenizer and replays
    /// the tokens onto the grid. A malformed control sequence fails the call,
    /// leaves the grid and cursor as they were before it, and resets the
    /// tokenizer.
    pub fn process(&mut self, bytes: &[u8]) -> (r: Result<(), ParseError>)
        requires
            old(self)@.wf(),
        ensures
            final(self)@.wf(),
            match spec_process(old(self)@, bytes@) {
                Ok(s2) => r is Ok && final(self)@ == s2,
                Err(e) => r matches Err(e2) && e2 == e && final(self)@ == ScreenModel {
                    tokenizer: initial_tokenizer(),
                    ..old(self)@
                },
            },
    {
        let tokens = match tokenize(&mut self.tokenizer, bytes) {
            Ok(t) => t,
            Err(e) => {
                return Err(e);
            },
        };
        self.apply(&tokens);
        Ok(())
    }

    /// Replays a token sequence onto the grid and cursor, in order.
    pub fn apply(&mut self, tokens: &Vec<AnsiToken>)
        requires
            old(self)@.wf(),
        ensures
            final(self)@.wf(),
            final(self)@ == old(self)@.spec_apply_tokens(tokens_view(tokens@)),
    {
        let ghost all = tokens_view(tokens@);
        let mut j: usize = 0;
        proof {
            assert(all.skip(0) =~= all);
        }
        while j < tokens.len()
            invariant
                j <= tokens@.len(),
                all == tokens_view(tokens@),
                self@.wf(),
                self@.spec_apply_tokens(all.skip(j as int)) == old(self)@.spec_apply_tokens(all),
            decreases tokens@.len() - j,
        {
            proof {
                assert(all.skip(j as int)[0] == tokens@[j as int]@);
                assert(all.skip(j as int).drop_first() =~= all.skip(j + 1));
            }
            self.apply_token(&tokens[j]);
            j += 1;
        }
        proof {
            assert(all.skip(tokens@.len() as int) =~= Seq::<TokenModel>::empty());
        }
    }

    /// The cursor as `(row, column)`, zero-based.
    pub fn cursor_position(&self) -> (r: (usize, usize))
        ensures
            r.0 == self@.cursor_row,
            r.1 == self@.cursor_col,
    {
        (self.cursor_row, self.cursor_col)
    }

    /// The raw bytes of row `r`.
    pub fn row_bytes(&self, r: usize) -> (v: Vec<u8>)
        requires
            self@.wf(),
            r < SCREEN_HEIGHT,
        ensures
            v@ == row_seq(self@.grid, r as int),
    {
        let mut v: Vec<u8> = Vec::new();
        let mut c: usize = 0;
        while c < SCREEN_WIDTH
            invariant
                self@.wf(),
                r < SCREEN_HEIGHT,
                c <= SCREEN_WIDTH,
                v@.len() == c,
                forall|k: int| 0 <= k < c ==> v@[k] == self@.grid[r * (SCREEN_WIDTH as int) + k],
            decreases SCREEN_WIDTH - c,
        {
            v.push(self.lines[r * SCREEN_WIDTH + c]);
            c += 1;
        }
        proof {
            assert(v@ =~= row_seq(self@.grid, r as int));
        }
        v
    }

    /// Whether the decoded text of any row holds `pattern` as a substring.
    pub fn contains(&self, pattern: &str) -> (r: bool)
        requires
            self@.wf(),
        ensures
            r == screen_contains(self@.grid, pattern@),
    {
        let pat_chars = chars_of(pattern);
        let mut row: usize = 0;
        while row < SCREEN_HEIGHT
            invariant
                self@.wf(),
                row <= SCREEN_HEIGHT,
                pat_chars@ == pattern@,
                forall|k: int|
                    0 <= k < row ==> !contains_seq(
                        big5_decoded(#[trigger] row_seq(self@.grid, k)),
                        pattern@,
                    ),
            decreases SCREEN_HEIGHT - row,
        {
            let bytes = self.row_bytes(row);
            let decoded = decode_big5(bytes.as_slice());
            let row_chars = chars_of(decoded.as_str());
            if seq_contains(&row_chars, &pat_chars) {
                return true;
            }
            row += 1;
        }
        false
    }

    /// The decoded text of the whole screen, each row ended by a newline,
    /// for an operator's inspection.
    pub fn render(&self) -> (r: String)
        requires
            self@.wf(),
        ensures
            r@ == spec_render(self@.grid, SCREEN_HEIGHT as int),
    {
        let mut out = String::new();
        let mut row: usize = 0;
        while row < SCREEN_HEIGHT
            invariant
                self@.wf(),
                row <= SCREEN_HEIGHT,
                out@ == spec_render(self@.grid, row as int),
            decreases SCREEN_HEIGHT - row,
        {
            let bytes = self.row_bytes(row);
            let decoded = decode_big5(bytes.as_slice());
            out.append(decoded.as_str());
            out.append("\n");
            proof {
                reveal_strlit("\n");
                assert("\n"@ =~= seq!['\n']);
            }
            row += 1;
        }
        out
    }

    /// The raw byte in cell `(r, c)`.
    pub fn cell(&self, r: usize, c: usize) -> (b: u8)
        requires
            self@.wf(),
            r < SCREEN_HEIGHT,
            c < SCREEN_WIDTH,
        ensures
            b == self@.grid[cell_index(r as int, c as int)],
    {
        self.lines[r * SCREEN_WIDTH + c]
    }
}

} // verus!
