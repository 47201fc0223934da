//! Escape-sequence tokenizer: turns an arbitrarily chunked terminal byte
//! stream into structured tokens, carrying partial-sequence state across
//! calls so that a control sequence split over two reads still parses.

use vstd::prelude::*;

verus! {

/// The escape byte that introduces every escape sequence.
pub const ESC: u8 = 27;

/// `[`: the byte after `ESC` that opens a control sequence.
pub const ESC_CSI: u8 = 91;

/// `;`: separates parameters inside a control sequence.
pub const SEMICOLON: u8 = 59;

/// Region parameter of an erase command.
#[derive(Clone, Copy, Debug, PartialEq, Eq, Structural)]
pub enum EraseOption {
    EraseToEnd,
    EraseToBeginning,
    EraseEntire,
    EraseEntireAndBuffer,
}

/// A parameter list of a control sequence; `None` is an empty field,
/// which each command resolves to its own default.
pub type ParamList = Vec<Option<i32>>;

/// One terminal operation, as produced by the tokenizer.
#[derive(Debug)]
pub enum AnsiToken {
    /// A run of plain text bytes (possibly containing control bytes < 0x20).
    Text(Vec<u8>),
    // Cursor movement
    CursorUp(isize),
    CursorDown(isize),
    CursorForward(isize),
    CursorBack(isize),
    CursorNextLine(isize),
    CursorPreviousLine(isize),
    /// Cursor Horizontal Absolute
    CursorHoriAbs(isize),
    /// 1-based row and column
    CursorPosition(isize, isize),
    SaveCursorPos,
    RestoreCursorPos,
    // Erasing
    EraseDisplay(EraseOption),
    EraseLine(EraseOption),
    // Scrolling
    ScrollUp(isize),
    ScrollDown(isize),
    // Graphic attributes
    SelectGraphic(Vec<u8>),
    ResetGraphic,
    // AUX port
    AuxOn,
    AuxOff,
    /// A well-formed control sequence whose final byte is not in the table:
    /// parameter list and final byte.
    UnknownCsi(ParamList, u8),
    /// An escape followed by something other than `[`.
    UnknownEscape(u8),
}

/// Mathematical model of one token: `Vec` fields become sequences.
pub enum TokenModel {
    Text(Seq<u8>),
    CursorUp(isize),
    CursorDown(isize),
    CursorForward(isize),
    CursorBack(isize),
    CursorNextLine(isize),
    CursorPreviousLine(isize),
    CursorHoriAbs(isize),
    CursorPosition(isize, isize),
    SaveCursorPos,
    RestoreCursorPos,
    EraseDisplay(EraseOption),
    EraseLine(EraseOption),
    ScrollUp(isize),
    ScrollDown(isize),
    SelectGraphic(Seq<u8>),
    ResetGraphic,
    AuxOn,
    AuxOff,
    UnknownCsi(Seq<Option<i32>>, u8),
    UnknownEscape(u8),
}

impl View for AnsiToken {
    type V = TokenModel;

    open spec fn view(&self) -> TokenModel {
        match self {
            AnsiToken::Text(bs) => TokenModel::Text(bs@),
            AnsiToken::CursorUp(n) => TokenModel::CursorUp(*n),
            AnsiToken::CursorDown(n) => TokenModel::CursorDown(*n),
            AnsiToken::CursorForward(n) => TokenModel::CursorForward(*n),
            AnsiToken::CursorBack(n) => TokenModel::CursorBack(*n),
            AnsiToken::CursorNextLine(n) => TokenModel::CursorNextLine(*n),
            AnsiToken::CursorPreviousLine(n) => TokenModel::CursorPreviousLine(*n),
            AnsiToken::CursorHoriAbs(n) => TokenModel::CursorHoriAbs(*n),
            AnsiToken::CursorPosition(r, c) => TokenModel::CursorPosition(*r, *c),
            AnsiToken::SaveCursorPos => TokenModel::SaveCursorPos,
            AnsiToken::RestoreCursorPos => TokenModel::RestoreCursorPos,
            AnsiToken::EraseDisplay(o) => TokenModel::EraseDisplay(*o),
            AnsiToken::EraseLine(o) => TokenModel::EraseLine(*o),
            AnsiToken::ScrollUp(n) => TokenModel::ScrollUp(*n),
            AnsiToken::ScrollDown(n) => TokenModel::ScrollDown(*n),
            AnsiToken::SelectGraphic(ps) => TokenModel::SelectGraphic(ps@),
            AnsiToken::ResetGraphic => TokenModel::ResetGraphic,
            AnsiToken::AuxOn => TokenModel::AuxOn,
            AnsiToken::AuxOff => TokenModel::AuxOff,
            AnsiToken::UnknownCsi(ps, b) => TokenModel::UnknownCsi(ps@, *b),
            AnsiToken::UnknownEscape(b) => TokenModel::UnknownEscape(*b),
        }
    }
}

/// The view of a token vector, token by token.
pub open spec fn tokens_view(ts: Seq<AnsiToken>) -> Seq<TokenModel> {
    ts.map_values(|t: AnsiToken| t@)
}

/// How a malformed control sequence fails to parse.
#[derive(Clone, Copy, Debug, PartialEq, Eq, Structural)]
pub enum ParseError {
    /// A byte inside a control sequence that is neither a parameter,
    /// an intermediate, nor a final byte.
    UndefinedByte(u8),
    /// A parameter field holds a byte that is not a decimal digit.
    BadParamByte(u8),
    /// A numeric parameter does not fit in an `i32`.
    ParamOverflow,
    /// More parameters than the command (named by its final byte) takes.
    ArityMismatch(u8),
    /// An erase-display command with a parameter outside 0..=3.
    BadEraseDisplayParam(i32),
    /// An erase-line command with a parameter outside 0..=2.
    BadEraseLineParam(i32),
    /// An AUX-port command with a parameter other than 4 or 5.
    BadAuxParam(i32),
}

/// CSI parameter bytes (0x30-0x3F) and intermediate bytes (0x20-0x2F).
pub open spec fn spec_is_csi_param_or_interm_byte(byte: u8) -> bool {
    0x20 <= byte && byte <= 0x3f
}

/// A CSI final byte (0x40-0x7E) closes the control sequence.
pub open spec fn spec_is_csi_final_byte(byte: u8) -> bool {
    0x40 <= byte && byte <= 0x7e
}

/// An ASCII decimal digit.
pub open spec fn is_digit_byte(b: u8) -> bool {
    0x30 <= b && b <= 0x39
}

/// Numeric value of a digit-only parameter field, read left to right;
/// a non-digit byte or a value beyond `i32::MAX` is the field's error.
pub open spec fn spec_field_value(f: Seq<u8>) -> Result<int, ParseError>
    decreases f.len(),
{
    if f.len() == 0 {
        Ok(0)
    } else {
        match spec_field_value(f.drop_last()) {
            Err(e) => Err(e),
            Ok(v) => {
                let b = f.last();
                if !is_digit_byte(b) {
                    Err(ParseError::BadParamByte(b))
                } else if v * 10 + (b - 0x30) > i32::MAX {
                    Err(ParseError::ParamOverflow)
                } else {
                    Ok(v * 10 + (b - 0x30))
                }
            },
        }
    }
}

/// One parameter field: empty means absent, otherwise its numeric value.
pub open spec fn spec_field(f: Seq<u8>) -> Result<Option<i32>, ParseError> {
    if f.len() == 0 {
        Ok(None)
    } else {
        match spec_field_value(f) {
            Ok(v) => Ok(Some(v as i32)),
            Err(e) => Err(e),
        }
    }
}

/// Parameter-buffer parsing: fields separated by `;`, read left to right
/// with `cur` the bytes of the field begun so far.
pub open spec fn spec_parse_rec(buf: Seq<u8>, cur: Seq<u8>) -> Result<
    Seq<Option<i32>>,
    ParseError,
>
    decreases buf.len(),
{
    if buf.len() == 0 {
        match spec_field(cur) {
            Ok(v) => Ok(seq![v]),
            Err(e) => Err(e),
        }
    } else if buf[0] == SEMICOLON {
        match spec_field(cur) {
            Err(e) => Err(e),
            Ok(v) => match spec_parse_rec(buf.drop_first(), Seq::empty()) {
                Err(e) => Err(e),
                Ok(rest) => Ok(seq![v] + rest),
            },
        }
    } else {
        spec_parse_rec(buf.drop_first(), cur.push(buf[0]))
    }
}

/// What `parse_csi_param` returns on a whole parameter buffer.
pub open spec fn spec_parse_csi_param(buf: Seq<u8>) -> Result<Seq<Option<i32>>, ParseError> {
    spec_parse_rec(buf, Seq::empty())
}

/// Once a field has failed, no continuation of the buffer recovers:
/// the whole parse fails with that field's error.
proof fn lemma_parse_rec_err(buf: Seq<u8>, cur: Seq<u8>, e: ParseError)
    requires
        cur.len() > 0,
        spec_field(cur) == Err::<Option<i32>, ParseError>(e),
    ensures
        spec_parse_rec(buf, cur) == Err::<Seq<Option<i32>>, ParseError>(e),
    decreases buf.len(),
{
    if buf.len() == 0 {
    } else if buf[0] == SEMICOLON {
    } else {
        assert(cur.push(buf[0]).drop_last() =~= cur);
        lemma_parse_rec_err(buf.drop_first(), cur.push(buf[0]), e);
    }
}

/// Parses a control sequence's accumulated parameter bytes into a list of
/// fields; `None` stands for an empty field. A byte that is neither a digit
/// nor `;` fails, as does a value that does not fit in an `i32`.
pub fn parse_csi_param(bytes: &[u8]) -> (r: Result<ParamList, ParseError>)
    ensures
        match spec_parse_csi_param(bytes@) {
            Ok(ps) => r matches Ok(v) && v@ == ps,
            Err(e) => r matches Err(e2) && e2 == e,
        },
{
    let mut result: ParamList = Vec::new();
    let mut val: i32 = 0;
    let mut has_digits: bool = false;
    let ghost mut cur: Seq<u8> = Seq::empty();
    let mut i: usize = 0;

    proof {
        assert(bytes@.skip(0) =~= bytes@);
    }

    while i < bytes.len()
        invariant
            0 <= i <= bytes@.len(),
            0 <= val,
            spec_field_value(cur) == Ok::<int, ParseError>(val as int),
            has_digits <==> cur.len() > 0,
            (match spec_parse_rec(bytes@.skip(i as int), cur) {
                Ok(rest) => spec_parse_csi_param(bytes@) == Ok::<Seq<Option<i32>>, ParseError>(
                    result@ + rest,
                ),
                Err(e) => spec_parse_csi_param(bytes@) == Err::<Seq<Option<i32>>, ParseError>(e),
            }),
        decreases bytes@.len() - i,
    {
        let b = bytes[i];
        proof {
            assert(bytes@.skip(i as int)[0] == b);
            assert(bytes@.skip(i as int).drop_first() =~= bytes@.skip(i + 1));
        }
        if b == SEMICOLON {
            let field: Option<i32> = if has_digits {
                Some(val)
            } else {
                None
            };
            let ghost old_result = result@;
            result.push(field);
            val = 0;
            has_digits = false;
            proof {
                cur = Seq::empty();
                if let Ok(rest) = spec_parse_rec(bytes@.skip(i + 1), cur) {
                    assert(old_result + (seq![field] + rest) =~= result@ + rest);
                }
            }
        } else if 0x30 <= b && b <= 0x39 {
            let d: i32 = (b - 0x30) as i32;
            let wide: i64 = (val as i64) * 10 + (d as i64);
            proof {
                assert(cur.push(b).drop_last() =~= cur);
            }
            if wide > (i32::MAX as i64) {
                proof {
                    lemma_parse_rec_err(bytes@.skip(i + 1), cur.push(b), ParseError::ParamOverflow);
                }
                return Err(ParseError::ParamOverflow);
            }
            val = wide as i32;
            has_digits = true;
            proof {
                cur = cur.push(b);
            }
        } else {
            proof {
                assert(cur.push(b).drop_last() =~= cur);
                lemma_parse_rec_err(bytes@.skip(i + 1), cur.push(b), ParseError::BadParamByte(b));
            }
            return Err(ParseError::BadParamByte(b));
        }
        i += 1;
    }
    proof {
        assert(bytes@.skip(i as int) =~= Seq::<u8>::empty());
    }
    let field: Option<i32> = if has_digits {
        Some(val)
    } else {
        None
    };
    let ghost old_result = result@;
    result.push(field);
    proof {
        assert(old_result + seq![field] =~= result@);
    }
    Ok(result)
}

/// Final bytes of the recognized control-sequence commands.
pub const CSI_CUU: u8 = 65;

pub const CSI_CUD: u8 = 66;

pub const CSI_CUF: u8 = 67;

pub const CSI_CUB: u8 = 68;

pub const CSI_CNL: u8 = 69;

pub const CSI_CPL: u8 = 70;

pub const CSI_CHA: u8 = 71;

pub const CSI_CUP: u8 = 72;

pub const CSI_ED: u8 = 74;

pub const CSI_EL: u8 = 75;

pub const CSI_SU: u8 = 83;

pub const CSI_SD: u8 = 84;

pub const CSI_HVP: u8 = 102;

pub const CSI_AUX: u8 = 105;

pub const CSI_SGR: u8 = 109;

pub const CSI_SCP: u8 = 115;

pub const CSI_RCP: u8 = 117;

/// Trailing empty fields are treated as absent and take no part in the
/// arity check, so that a lone `;` still resolves to the defaults.
pub open spec fn drop_trailing_absent(ps: Seq<Option<i32>>) -> Seq<Option<i32>>
    decreases ps.len(),
{
    if ps.len() > 0 && ps.last() is None {
        drop_trailing_absent(ps.drop_last())
    } else {
        ps
    }
}

/// An absent field resolves to the command's own default.
pub open spec fn param_or(p: Option<i32>, default: i32) -> i32 {
    match p {
        Some(v) => v,
        None => default,
    }
}

/// A graphic-attribute code: the parameter's low byte; an absent field
/// becomes 255.
pub open spec fn spec_sgr_byte(p: Option<i32>) -> u8 {
    ((param_or(p, 255) as int) % 256) as u8
}

pub open spec fn sgr_codes(ps: Seq<Option<i32>>) -> Seq<u8> {
    ps.map_values(|p: Option<i32>| spec_sgr_byte(p))
}

/// The final-byte resolution table: which token a closed control sequence
/// yields, or why it is malformed.
pub open spec fn spec_match_csi(final_byte: u8, params: Seq<Option<i32>>) -> Result<
    TokenModel,
    ParseError,
> {
    let n = drop_trailing_absent(params);
    if final_byte == CSI_CUU || final_byte == CSI_CUD || final_byte == CSI_CUF || final_byte
        == CSI_CUB || final_byte == CSI_CNL || final_byte == CSI_CPL || final_byte == CSI_CHA {
        if n.len() > 1 {
            Err(ParseError::ArityMismatch(final_byte))
        } else {
            let m = (if n.len() == 1 {
                param_or(n[0], 1)
            } else {
                1i32
            }) as isize;
            if final_byte == CSI_CUU {
                Ok(TokenModel::CursorUp(m))
            } else if final_byte == CSI_CUD {
                Ok(TokenModel::CursorDown(m))
            } else if final_byte == CSI_CUF {
                Ok(TokenModel::CursorForward(m))
            } else if final_byte == CSI_CUB {
                Ok(TokenModel::CursorBack(m))
            } else if final_byte == CSI_CNL {
                Ok(TokenModel::CursorNextLine(m))
            } else if final_byte == CSI_CPL {
                Ok(TokenModel::CursorPreviousLine(m))
            } else {
                Ok(TokenModel::CursorHoriAbs(m))
            }
        }
    } else if final_byte == CSI_CUP || final_byte == CSI_HVP {
        if n.len() > 2 {
            Err(ParseError::ArityMismatch(final_byte))
        } else {
            let x = (if n.len() >= 1 {
                param_or(n[0], 1)
            } else {
                1i32
            }) as isize;
            let y = (if n.len() == 2 {
                param_or(n[1], 1)
            } else {
                1i32
            }) as isize;
            Ok(TokenModel::CursorPosition(x, y))
        }
    } else if final_byte == CSI_ED {
        if n.len() > 1 {
            Err(ParseError::ArityMismatch(final_byte))
        } else {
            let v = if n.len() == 1 {
                param_or(n[0], 0)
            } else {
                0i32
            };
            if v == 0 {
                Ok(TokenModel::EraseDisplay(EraseOption::EraseToEnd))
            } else if v == 1 {
                Ok(TokenModel::EraseDisplay(EraseOption::EraseToBeginning))
            } else if v == 2 {
                Ok(TokenModel::EraseDisplay(EraseOption::EraseEntire))
            } else if v == 3 {
                Ok(TokenModel::EraseDisplay(EraseOption::EraseEntireAndBuffer))
            } else {
                Err(ParseError::BadEraseDisplayParam(v))
            }
        }
    } else if final_byte == CSI_EL {
        if n.len() > 1 {
            Err(ParseError::ArityMismatch(final_byte))
        } else {
            let v = if n.len() == 1 {
                param_or(n[0], 0)
            } else {
                0i32
            };
            if v == 0 {
                Ok(TokenModel::EraseLine(EraseOption::EraseToEnd))
            } else if v == 1 {
                Ok(TokenModel::EraseLine(EraseOption::EraseToBeginning))
            } else if v == 2 {
                Ok(TokenModel::EraseLine(EraseOption::EraseEntire))
            } else {
                Err(ParseError::BadEraseLineParam(v))
            }
        }
    } else if final_byte == CSI_SU || final_byte == CSI_SD {
        if n.len() > 1 {
            Err(ParseError::ArityMismatch(final_byte))
        } else {
            let m = (if n.len() == 1 {
                param_or(n[0], 1)
            } else {
                1i32
            }) as isize;
            if final_byte == CSI_SU {
                Ok(TokenModel::ScrollUp(m))
            } else {
                Ok(TokenModel::ScrollDown(m))
            }
        }
    } else if final_byte == CSI_SGR {
        if n.len() == 0 {
            Ok(TokenModel::ResetGraphic)
        } else if n.len() == 1 {
            if param_or(n[0], 0) % 256 == 0 {
                Ok(TokenModel::ResetGraphic)
            } else {
                Ok(TokenModel::SelectGraphic(seq![spec_sgr_byte(n[0])]))
            }
        } else {
            Ok(TokenModel::SelectGraphic(sgr_codes(n)))
        }
    } else if final_byte == CSI_AUX {
        if n.len() == 1 {
            let v = param_or(n[0], 0);
            if v == 5 {
                Ok(TokenModel::AuxOn)
            } else if v == 4 {
                Ok(TokenModel::AuxOff)
            } else {
                Err(ParseError::BadAuxParam(v))
            }
        } else {
            Err(ParseError::ArityMismatch(final_byte))
        }
    } else if final_byte == CSI_SCP {
        if n.len() > 0 {
            Err(ParseError::ArityMismatch(final_byte))
        } else {
            Ok(TokenModel::SaveCursorPos)
        }
    } else if final_byte == CSI_RCP {
        if n.len() > 0 {
            Err(ParseError::ArityMismatch(final_byte))
        } else {
            Ok(TokenModel::RestoreCursorPos)
        }
    } else {
        Ok(TokenModel::UnknownCsi(params, final_byte))
    }
}

/// The low byte of a graphic-attribute parameter; 255 for an absent field.
fn sgr_byte(p: Option<i32>) -> (r: u8)
    ensures
        r == spec_sgr_byte(p),
{
    let v: i32 = match p {
        Some(v) => v,
        None => 255,
    };
    let wide: i64 = (v as i64) + 0x1_0000_0000i64;
    proof {
        vstd::arithmetic::div_mod::lemma_mod_multiples_vanish(16777216, v as int, 256);
    }
    (wide % 256) as u8
}

/// Resolves a closed control sequence, final byte plus parameter list, into
/// its token, per the final-byte resolution table.
pub fn match_csi(final_byte: u8, params: ParamList) -> (r: Result<AnsiToken, ParseError>)
    ensures
        match spec_match_csi(final_byte, params@) {
            Ok(t) => r matches Ok(tok) && tok@ == t,
            Err(e) => r matches Err(e2) && e2 == e,
        },
{
    // The arity check ignores trailing empty fields.
    let mut n: usize = params.len();
    proof {
        assert(params@.take(n as int) =~= params@);
    }
    while n > 0 && params[n - 1].is_none()
        invariant
            n <= params@.len(),
            drop_trailing_absent(params@) == drop_trailing_absent(params@.take(n as int)),
        decreases n,
    {
        proof {
            assert(params@.take(n as int).drop_last() =~= params@.take(n - 1));
        }
        n -= 1;
    }
    let ghost norm = drop_trailing_absent(params@);
    proof {
        assert(norm =~= params@.take(n as int));
    }

    if final_byte == CSI_CUU || final_byte == CSI_CUD || final_byte == CSI_CUF || final_byte
        == CSI_CUB || final_byte == CSI_CNL || final_byte == CSI_CPL || final_byte == CSI_CHA {
        if n > 1 {
            return Err(ParseError::ArityMismatch(final_byte));
        }
        let m: isize = (if n == 1 {
            match params[0] {
                Some(v) => v,
                None => 1,
            }
        } else {
            1
        }) as isize;
        if final_byte == CSI_CUU {
            Ok(AnsiToken::CursorUp(m))
        } else if final_byte == CSI_CUD {
            Ok(AnsiToken::CursorDown(m))
        } else if final_byte == CSI_CUF {
            Ok(AnsiToken::CursorForward(m))
        } else if final_byte == CSI_CUB {
            Ok(AnsiToken::CursorBack(m))
        } else if final_byte == CSI_CNL {
            Ok(AnsiToken::CursorNextLine(m))
        } else if final_byte == CSI_CPL {
            Ok(AnsiToken::CursorPreviousLine(m))
        } else {
            Ok(AnsiToken::CursorHoriAbs(m))
        }
    } else if final_byte == CSI_CUP || final_byte == CSI_HVP {
        if n > 2 {
            return Err(ParseError::ArityMismatch(final_byte));
        }
        let x: isize = (if n >= 1 {
            match params[0] {
                Some(v) => v,
                None => 1,
            }
        } else {
            1
        }) as isize;
        let y: isize = (if n == 2 {
            match params[1] {
                Some(v) => v,
                None => 1,
            }
        } else {
            1
        }) as isize;
        Ok(AnsiToken::CursorPosition(x, y))
    } else if final_byte == CSI_ED || final_byte == CSI_EL {
        if n > 1 {
            return Err(ParseError::ArityMismatch(final_byte));
        }
        let v: i32 = if n == 1 {
            match params[0] {
                Some(v) => v,
                None => 0,
            }
        } else {
            0
        };
        if final_byte == CSI_ED {
            if v == 0 {
                Ok(AnsiToken::EraseDisplay(EraseOption::EraseToEnd))
            } else if v == 1 {
                Ok(AnsiToken::EraseDisplay(EraseOption::EraseToBeginning))
            } else if v == 2 {
                Ok(AnsiToken::EraseDisplay(EraseOption::EraseEntire))
            } else if v == 3 {
                Ok(AnsiToken::EraseDisplay(EraseOption::EraseEntireAndBuffer))
            } else {
                Err(ParseError::BadEraseDisplayParam(v))
            }
        } else {
            if v == 0 {
                Ok(AnsiToken::EraseLine(EraseOption::EraseToEnd))
            } else if v == 1 {
                Ok(AnsiToken::EraseLine(EraseOption::EraseToBeginning))
            } else if v == 2 {
                Ok(AnsiToken::EraseLine(EraseOption::EraseEntire))
            } else {
                Err(ParseError::BadEraseLineParam(v))
            }
        }
    } else if final_byte == CSI_SU || final_byte == CSI_SD {
        if n > 1 {
            return Err(ParseError::ArityMismatch(final_byte));
        }
        let m: isize = (if n == 1 {
            match params[0] {
                Some(v) => v,
                None => 1,
            }
        } else {
            1
        }) as isize;
        if final_byte == CSI_SU {
            Ok(AnsiToken::ScrollUp(m))
        } else {
            Ok(AnsiToken::ScrollDown(m))
        }
    } else if final_byte == CSI_SGR {
        if n == 0 {
            Ok(AnsiToken::ResetGraphic)
        } else if n == 1 {
            let code = sgr_byte(params[0]);
            if code == 0 {
                Ok(AnsiToken::ResetGraphic)
            } else {
                let mut codes: Vec<u8> = Vec::new();
                codes.push(code);
                proof {
                    assert(codes@ =~= seq![spec_sgr_byte(norm[0])]);
                }
                Ok(AnsiToken::SelectGraphic(codes))
            }
        } else {
            let mut codes: Vec<u8> = Vec::new();
            let mut j: usize = 0;
            while j < n
                invariant
                    j <= n,
                    n <= params@.len(),
                    norm == params@.take(n as int),
                    codes@ == sgr_codes(norm.take(j as int)),
                decreases n - j,
            {
                codes.push(sgr_byte(params[j]));
                proof {
                    assert(sgr_codes(norm.take(j + 1)) =~= sgr_codes(norm.take(j as int)).push(
                        spec_sgr_byte(norm[j as int]),
                    ));
                }
                j += 1;
            }
            proof {
                assert(norm.take(n as int) =~= norm);
            }
            Ok(AnsiToken::SelectGraphic(codes))
        }
    } else if final_byte == CSI_AUX {
        if n == 1 {
            let v: i32 = match params[0] {
                Some(v) => v,
                None => 0,
            };
            if v == 5 {
                Ok(AnsiToken::AuxOn)
            } else if v == 4 {
                Ok(AnsiToken::AuxOff)
            } else {
                Err(ParseError::BadAuxParam(v))
            }
        } else {
            Err(ParseError::ArityMismatch(final_byte))
        }
    } else if final_byte == CSI_SCP {
        if n > 0 {
            Err(ParseError::ArityMismatch(final_byte))
        } else {
            Ok(AnsiToken::SaveCursorPos)
        }
    } else if final_byte == CSI_RCP {
        if n > 0 {
            Err(ParseError::ArityMismatch(final_byte))
        } else {
            Ok(AnsiToken::RestoreCursorPos)
        }
    } else {
        Ok(AnsiToken::UnknownCsi(params, final_byte))
    }
}

/// Scanner position between two bytes of the stream.
#[derive(Clone, Copy, Debug, PartialEq, Eq, Structural)]
pub enum ScanMode {
    Text,
    Escaping,
    InControlSequence,
}

/// Tokenizer state carried across calls, so that a control sequence split
/// over two reads still parses: the scanner position plus the accumulated
/// parameter bytes of an open control sequence.
pub struct TokenizerState {
    pub mode: ScanMode,
    pub params: Vec<u8>,
}

/// Mathematical model of the carried state.
pub struct TokenizerModel {
    pub mode: ScanMode,
    pub params: Seq<u8>,
}

impl View for TokenizerState {
    type V = TokenizerModel;

    open spec fn view(&self) -> TokenizerModel {
        TokenizerModel { mode: self.mode, params: self.params@ }
    }
}

impl TokenizerState {
    /// A fresh scanner, in plain text with nothing accumulated.
    pub fn new() -> (r: TokenizerState)
        ensures
            r@ == initial_tokenizer(),
    {
        TokenizerState { mode: ScanMode::Text, params: Vec::new() }
    }
}

pub open spec fn initial_tokenizer() -> TokenizerModel {
    TokenizerModel { mode: ScanMode::Text, params: Seq::empty() }
}

/// One pass of the scanner over `bytes`, byte by byte: `pending` is the text
/// run begun so far. Yields the tokens emitted, the carried state, and the
/// text run still pending when the input ends.
pub open spec fn spec_tokenize_rec(m: TokenizerModel, pending: Seq<u8>, bytes: Seq<u8>) -> Result<
    (Seq<TokenModel>, TokenizerModel, Seq<u8>),
    ParseError,
>
    decreases bytes.len(),
{
    if bytes.len() == 0 {
        Ok((Seq::empty(), m, pending))
    } else {
        let b = bytes[0];
        let rest = bytes.drop_first();
        match m.mode {
            ScanMode::Text => {
                if b == ESC {
                    let flushed: Seq<TokenModel> = if pending.len() > 0 {
                        seq![TokenModel::Text(pending)]
                    } else {
                        Seq::empty()
                    };
                    match spec_tokenize_rec(
                        TokenizerModel { mode: ScanMode::Escaping, ..m },
                        Seq::empty(),
                        rest,
                    ) {
                        Ok((toks, m2, p2)) => Ok((flushed + toks, m2, p2)),
                        Err(e) => Err(e),
                    }
                } else {
                    spec_tokenize_rec(m, pending.push(b), rest)
                }
            },
            ScanMode::Escaping => {
                if b == ESC_CSI {
                    spec_tokenize_rec(
                        TokenizerModel { mode: ScanMode::InControlSequence, params: Seq::empty() },
                        pending,
                        rest,
                    )
                } else {
                    match spec_tokenize_rec(
                        TokenizerModel { mode: ScanMode::Text, ..m },
                        pending,
                        rest,
                    ) {
                        Ok((toks, m2, p2)) => Ok((seq![TokenModel::UnknownEscape(b)] + toks, m2, p2)),
                        Err(e) => Err(e),
                    }
                }
            },
            ScanMode::InControlSequence => {
                if spec_is_csi_final_byte(b) {
                    match spec_parse_csi_param(m.params) {
                        Err(e) => Err(e),
                        Ok(ps) => match spec_match_csi(b, ps) {
                            Err(e) => Err(e),
                            Ok(t) => match spec_tokenize_rec(
                                TokenizerModel { mode: ScanMode::Text, params: Seq::empty() },
                                pending,
                                rest,
                            ) {
                                Ok((toks, m2, p2)) => Ok((seq![t] + toks, m2, p2)),
                                Err(e) => Err(e),
                            },
                        },
                    }
                } else if spec_is_csi_param_or_interm_byte(b) {
                    spec_tokenize_rec(
                        TokenizerModel { mode: ScanMode::InControlSequence, params: m.params.push(b) },
                        pending,
                        rest,
                    )
                } else {
                    Err(ParseError::UndefinedByte(b))
                }
            },
        }
    }
}

/// What one call of `tokenize` yields from carried state `m` and input
/// `bytes`: the scanner's tokens, with a still-pending text run flushed as a
/// final `Text` token, and the state carried to the next call.
pub open spec fn spec_tokenize(m: TokenizerModel, bytes: Seq<u8>) -> Result<
    (Seq<TokenModel>, TokenizerModel),
    ParseError,
> {
    match spec_tokenize_rec(m, Seq::empty(), bytes) {
        Err(e) => Err(e),
        Ok((toks, m2, pending)) => Ok(
            (
                if pending.len() > 0 {
                    toks.push(TokenModel::Text(pending))
                } else {
                    toks
                },
                m2,
            ),
        ),
    }
}

/// The tokenizing loop's bookkeeping: what the whole-input scan yields,
/// in terms of the tokens already emitted and the scan still to come.
spec fn tokenize_loop_inv(
    m0: TokenizerModel,
    bytes: Seq<u8>,
    m: TokenizerModel,
    pending: Seq<u8>,
    emitted: Seq<TokenModel>,
    i: int,
) -> bool {
    match spec_tokenize_rec(m, pending, bytes.skip(i)) {
        Ok(r) => spec_tokenize_rec(m0, Seq::empty(), bytes) == Ok::<
            (Seq<TokenModel>, TokenizerModel, Seq<u8>),
            ParseError,
        >((emitted + r.0, r.1, r.2)),
        Err(e) => spec_tokenize_rec(m0, Seq::empty(), bytes) == Err::<
            (Seq<TokenModel>, TokenizerModel, Seq<u8>),
            ParseError,
        >(e),
    }
}

/// Tokenizes one chunk of the byte stream, resuming from — and leaving
/// behind — the carried state, so the next chunk continues correctly even
/// when a control sequence is split across chunks. A malformed control
/// sequence fails the whole call and resets the state.
pub fn tokenize(state: &mut TokenizerState, bytes: &[u8]) -> (r: Result<Vec<AnsiToken>, ParseError>)
    ensures
        match spec_tokenize(old(state)@, bytes@) {
            Ok((toks, m2)) => r matches Ok(v) && tokens_view(v@) == toks && final(state)@ == m2,
            Err(e) => r matches Err(e2) && e2 == e && final(state)@ == initial_tokenizer(),
        },
{
    let mut tokens: Vec<AnsiToken> = Vec::new();
    let mut pending: Vec<u8> = Vec::new();
    let mut i: usize = 0;
    proof {
        assert(bytes@.skip(0) =~= bytes@);
        assert(tokens_view(tokens@) + Seq::<TokenModel>::empty() =~= tokens_view(tokens@));
    }
    while i < bytes.len()
        invariant
            i <= bytes@.len(),
            tokenize_loop_inv(old(state)@, bytes@, state@, pending@, tokens_view(tokens@), i as int),
        decreases bytes@.len() - i,
    {
        let b = bytes[i];
        proof {
            assert(bytes@.skip(i as int)[0] == b);
            assert(bytes@.skip(i as int).drop_first() =~= bytes@.skip(i + 1));
        }
        match state.mode {
            ScanMode::Text => {
                if b == ESC {
                    if pending.len() > 0 {
                        let ghost old_tokens = tokens@;
                        let flushed = pending;
                        pending = Vec::new();
                        tokens.push(AnsiToken::Text(flushed));
                        proof {
                            assert(pending@ =~= Seq::<u8>::empty());
                            assert(tokens_view(tokens@) =~= tokens_view(old_tokens).push(
                                TokenModel::Text(flushed@),
                            ));
                            if let Ok((toks, m2, p2)) = spec_tokenize_rec(
                                TokenizerModel { mode: ScanMode::Escaping, ..state@ },
                                Seq::empty(),
                                bytes@.skip(i + 1),
                            ) {
                                assert(tokens_view(old_tokens) + (seq![
                                    TokenModel::Text(flushed@),
                                ] + toks) =~= tokens_view(tokens@) + toks);
                            }
                        }
                    } else {
                        proof {
                            assert(pending@ =~= Seq::<u8>::empty());
                            if let Ok((toks, m2, p2)) = spec_tokenize_rec(
                                TokenizerModel { mode: ScanMode::Escaping, ..state@ },
                                Seq::empty(),
                                bytes@.skip(i + 1),
                            ) {
                                assert(Seq::<TokenModel>::empty() + toks =~= toks);
                            }
                        }
                    }
                    state.mode = ScanMode::Escaping;
                } else {
                    pending.push(b);
                }
            },
            ScanMode::Escaping => {
                if b == ESC_CSI {
                    state.mode = ScanMode::InControlSequence;
                    state.params.clear();
                } else {
                    let ghost old_tokens = tokens@;
                    tokens.push(AnsiToken::UnknownEscape(b));
                    state.mode = ScanMode::Text;
                    proof {
                        assert(tokens_view(tokens@) =~= tokens_view(old_tokens).push(
                            TokenModel::UnknownEscape(b),
                        ));
                        if let Ok((toks, m2, p2)) = spec_tokenize_rec(
                            state@,
                            pending@,
                            bytes@.skip(i + 1),
                        ) {
                            assert(tokens_view(old_tokens) + (seq![
                                TokenModel::UnknownEscape(b),
                            ] + toks) =~= tokens_view(tokens@) + toks);
                        }
                    }
                }
            },
            ScanMode::InControlSequence => {
                if is_csi_final_byte(b) {
                    let parsed = parse_csi_param(state.params.as_slice());
                    match parsed {
                        Err(e) => {
                            state.mode = ScanMode::Text;
                            state.params.clear();
                            return Err(e);
                        },
                        Ok(ps) => {
                            match match_csi(b, ps) {
                                Err(e) => {
                                    state.mode = ScanMode::Text;
                                    state.params.clear();
                                    return Err(e);
                                },
                                Ok(tok) => {
                                    let ghost old_tokens = tokens@;
                                    let ghost tok_model = tok@;
                                    tokens.push(tok);
                                    state.mode = ScanMode::Text;
                                    state.params.clear();
                                    proof {
                                        assert(tokens_view(tokens@) =~= tokens_view(
                                            old_tokens,
                                        ).push(tok_model));
                                        if let Ok((toks, m2, p2)) = spec_tokenize_rec(
                                            state@,
                                            pending@,
                                            bytes@.skip(i + 1),
                                        ) {
                                            assert(tokens_view(old_tokens) + (seq![tok_model]
                                                + toks) =~= tokens_view(tokens@) + toks);
                                        }
                                    }
                                },
                            }
                        },
                    }
                } else if is_csi_param_or_interm_byte(b) {
                    state.params.push(b);
                } else {
                    state.mode = ScanMode::Text;
                    state.params.clear();
                    return Err(ParseError::UndefinedByte(b));
                }
            },
        }
        i += 1;
    }
    proof {
        assert(bytes@.skip(bytes@.len() as int) =~= Seq::<u8>::empty());
    }
    if pending.len() > 0 {
        let ghost old_tokens = tokens@;
        let ghost pend = pending@;
        tokens.push(AnsiToken::Text(pending));
        proof {
            assert(tokens_view(tokens@) =~= tokens_view(old_tokens).push(TokenModel::Text(pend)));
        }
        Ok(tokens)
    } else {
        proof {
            assert(tokens_view(tokens@) + Seq::<TokenModel>::empty() =~= tokens_view(tokens@));
        }
        Ok(tokens)
    }
}

/// In plain text, a run without the escape byte only lengthens the pending
/// text and emits nothing.
proof fn lemma_text_run(m: TokenizerModel, pending: Seq<u8>, bytes: Seq<u8>)
    requires
        m.mode is Text,
        forall|i: int| 0 <= i < bytes.len() ==> bytes[i] != ESC,
    ensures
        spec_tokenize_rec(m, pending, bytes) == Ok::<
            (Seq<TokenModel>, TokenizerModel, Seq<u8>),
            ParseError,
        >((Seq::empty(), m, pending + bytes)),
    decreases bytes.len(),
{
    if bytes.len() == 0 {
        assert(pending + bytes =~= pending);
    } else {
        lemma_text_run(m, pending.push(bytes[0]), bytes.drop_first());
        assert(pending.push(bytes[0]) + bytes.drop_first() =~= pending + bytes);
    }
}

/// A byte sequence without the escape byte tokenizes, from a fresh scanner,
/// to exactly one `Text` token holding the whole input.
pub proof fn lemma_text_only_tokenize(bytes: Seq<u8>)
    requires
        bytes.len() > 0,
        forall|i: int| 0 <= i < bytes.len() ==> bytes[i] != ESC,
    ensures
        spec_tokenize(initial_tokenizer(), bytes) == Ok::<
            (Seq<TokenModel>, TokenizerModel),
            ParseError,
        >((seq![TokenModel::Text(bytes)], initial_tokenizer())),
{
    lemma_text_run(initial_tokenizer(), Seq::empty(), bytes);
    assert(Seq::<u8>::empty() + bytes =~= bytes);
    assert(Seq::<TokenModel>::empty().push(TokenModel::Text(bytes)) =~= seq![
        TokenModel::Text(bytes),
    ]);
}

/// The scan over a split input composes: the first part's scan, then the
/// second part's scan resumed from the carried state and pending text.
proof fn lemma_tokenize_rec_append(m: TokenizerModel, pending: Seq<u8>, a: Seq<u8>, b: Seq<u8>)
    ensures
        (match spec_tokenize_rec(m, pending, a) {
            Ok(r1) => spec_tokenize_rec(m, pending, a + b) == (match spec_tokenize_rec(
                r1.1,
                r1.2,
                b,
            ) {
                Ok(r2) => Ok::<(Seq<TokenModel>, TokenizerModel, Seq<u8>), ParseError>(
                    (r1.0 + r2.0, r2.1, r2.2),
                ),
                Err(e) => Err(e),
            }),
            Err(e) => spec_tokenize_rec(m, pending, a + b) == Err::<
                (Seq<TokenModel>, TokenizerModel, Seq<u8>),
                ParseError,
            >(e),
        }),
    decreases a.len(),
{
    if a.len() == 0 {
        assert(a + b =~= b);
        if let Ok(r2) = spec_tokenize_rec(m, pending, b) {
            assert(Seq::<TokenModel>::empty() + r2.0 =~= r2.0);
        }
    } else {
        let x = a[0];
        let resta = a.drop_first();
        assert((a + b)[0] == x);
        assert((a + b).drop_first() =~= resta + b);
        match m.mode {
            ScanMode::Text => {
                if x == ESC {
                    let m_esc = TokenizerModel { mode: ScanMode::Escaping, ..m };
                    lemma_tokenize_rec_append(m_esc, Seq::empty(), resta, b);
                    let flushed: Seq<TokenModel> = if pending.len() > 0 {
                        seq![TokenModel::Text(pending)]
                    } else {
                        Seq::empty()
                    };
                    if let Ok(r1) = spec_tokenize_rec(m_esc, Seq::empty(), resta) {
                        if let Ok(r2) = spec_tokenize_rec(r1.1, r1.2, b) {
                            assert((flushed + r1.0) + r2.0 =~= flushed + (r1.0 + r2.0));
                        }
                    }
                } else {
                    lemma_tokenize_rec_append(m, pending.push(x), resta, b);
                }
            },
            ScanMode::Escaping => {
                if x == ESC_CSI {
                    lemma_tokenize_rec_append(
                        TokenizerModel { mode: ScanMode::InControlSequence, params: Seq::empty() },
                        pending,
                        resta,
                        b,
                    );
                } else {
                    let m_text = TokenizerModel { mode: ScanMode::Text, ..m };
                    lemma_tokenize_rec_append(m_text, pending, resta, b);
                    if let Ok(r1) = spec_tokenize_rec(m_text, pending, resta) {
                        if let Ok(r2) = spec_tokenize_rec(r1.1, r1.2, b) {
                            assert((seq![TokenModel::UnknownEscape(x)] + r1.0) + r2.0 =~= seq![
                                TokenModel::UnknownEscape(x),
                            ] + (r1.0 + r2.0));
                        }
                    }
                }
            },
            ScanMode::InControlSequence => {
                if spec_is_csi_final_byte(x) {
                    if let Ok(ps) = spec_parse_csi_param(m.params) {
                        if let Ok(t) = spec_match_csi(x, ps) {
                            let m_text = TokenizerModel {
                                mode: ScanMode::Text,
                                params: Seq::empty(),
                            };
                            lemma_tokenize_rec_append(m_text, pending, resta, b);
                            if let Ok(r1) = spec_tokenize_rec(m_text, pending, resta) {
                                if let Ok(r2) = spec_tokenize_rec(r1.1, r1.2, b) {
                                    assert((seq![t] + r1.0) + r2.0 =~= seq![t] + (r1.0 + r2.0));
                                }
                            }
                        }
                    }
                } else if spec_is_csi_param_or_interm_byte(x) {
                    lemma_tokenize_rec_append(
                        TokenizerModel {
                            mode: ScanMode::InControlSequence,
                            params: m.params.push(x),
                        },
                        pending,
                        resta,
                        b,
                    );
                }
            },
        }
    }
}

/// Outside plain text the pending run is always empty: it was flushed when
/// the escape byte arrived.
proof fn lemma_pending_empty(m: TokenizerModel, pending: Seq<u8>, bytes: Seq<u8>)
    requires
        !(m.mode is Text) ==> pending.len() == 0,
    ensures
        (match spec_tokenize_rec(m, pending, bytes) {
            Ok(r) => !(r.1.mode is Text) ==> r.2.len() == 0,
            Err(_) => true,
        }),
    decreases bytes.len(),
{
    if bytes.len() > 0 {
        let x = bytes[0];
        let rest = bytes.drop_first();
        match m.mode {
            ScanMode::Text => {
                if x == ESC {
                    lemma_pending_empty(
                        TokenizerModel { mode: ScanMode::Escaping, ..m },
                        Seq::empty(),
                        rest,
                    );
                } else {
                    lemma_pending_empty(m, pending.push(x), rest);
                }
            },
            ScanMode::Escaping => {
                if x == ESC_CSI {
                    lemma_pending_empty(
                        TokenizerModel { mode: ScanMode::InControlSequence, params: Seq::empty() },
                        pending,
                        rest,
                    );
                } else {
                    lemma_pending_empty(TokenizerModel { mode: ScanMode::Text, ..m }, pending, rest);
                }
            },
            ScanMode::InControlSequence => {
                if spec_is_csi_final_byte(x) {
                    lemma_pending_empty(
                        TokenizerModel { mode: ScanMode::Text, params: Seq::empty() },
                        pending,
                        rest,
                    );
                } else if spec_is_csi_param_or_interm_byte(x) {
                    lemma_pending_empty(
                        TokenizerModel {
                            mode: ScanMode::InControlSequence,
                            params: m.params.push(x),
                        },
                        pending,
                        rest,
                    );
                }
            },
        }
    }
}

/// Splitting the input at a chunk boundary that falls inside an escape or
/// control sequence — the carried state after the first chunk is not plain
/// text — yields the same tokens, carried state, and error as tokenizing
/// the two chunks as one.
pub proof fn lemma_tokenize_split(m: TokenizerModel, a: Seq<u8>, b: Seq<u8>)
    requires
        spec_tokenize(m, a) is Ok,
        !(spec_tokenize(m, a)->Ok_0.1.mode is Text),
    ensures
        (match spec_tokenize(spec_tokenize(m, a)->Ok_0.1, b) {
            Ok(r2) => spec_tokenize(m, a + b) == Ok::<(Seq<TokenModel>, TokenizerModel), ParseError>(
                (spec_tokenize(m, a)->Ok_0.0 + r2.0, r2.1),
            ),
            Err(e) => spec_tokenize(m, a + b) == Err::<
                (Seq<TokenModel>, TokenizerModel),
                ParseError,
            >(e),
        }),
{
    lemma_tokenize_rec_append(m, Seq::empty(), a, b);
    lemma_pending_empty(m, Seq::empty(), a);
    let r1 = spec_tokenize_rec(m, Seq::empty(), a)->Ok_0;
    assert(r1.2 =~= Seq::<u8>::empty());
    match spec_tokenize_rec(r1.1, Seq::empty(), b) {
        Ok(r2) => {
            if r2.2.len() > 0 {
                assert((r1.0 + r2.0).push(TokenModel::Text(r2.2)) =~= r1.0 + r2.0.push(
                    TokenModel::Text(r2.2),
                ));
            }
        },
        Err(_) => {},
    }
}

pub fn is_csi_param_or_interm_byte(byte: u8) -> (r: bool)
    ensures
        r == spec_is_csi_param_or_interm_byte(byte),
{
    0x20 <= byte && byte <= 0x3f
}

pub fn is_csi_final_byte(byte: u8) -> (r: bool)
    ensures
        r == spec_is_csi_final_byte(byte),
{
    0x40 <= byte && byte <= 0x7e
}

} // verus!
