//! The instruction set, the textual form of one instruction, and programs
//! as loaded from listings.
use vstd::prelude::*;

use crate::text::{
    decimal_string, decimal_text, decimal_value, is_capitals,
    lemma_capitals_plain, lemma_decimal_round_trip, lemma_decimal_text_plain,
    lemma_strip_without_slash, lemma_tokens_after_space, lemma_tokens_after_word, parse_decimal,
    remove_comments, split_tokens, str_equals, strip_comment, tokens, trim, trim_spaces, upper_of,
    uppercase,
};

verus! {

/// The thirty operations of the machine.
#[derive(Clone, Copy, Debug, PartialEq, Eq, Hash, Structural)]
pub enum OperationCode {
    /// Reserve zeroed slots on top of the stack.
    Isp,
    /// Push the address `Bb + a`.
    La,
    /// Push the value at `Bb + a`.
    Lv,
    /// Push a constant.
    Lc,
    /// Replace the address on top by the value it points at.
    Li,
    /// Push a copy of the top.
    Dup,
    /// Pop a value and an address; store the value there.
    Si,
    /// Pop a value; store it at `Bb + a`.
    Sv,
    /// Pop a value into base register `b`.
    Sb,
    /// Jump by a signed distance.
    B,
    /// Pop a value; jump by a signed distance when it is zero.
    Bz,
    /// Push a frame header and jump to a subroutine.
    Call,
    /// Unwind the current frame and return to the caller.
    Ret,
    /// Push one byte read from input.
    Getc,
    /// Push one decimal integer read from input.
    Geti,
    /// Pop a value and write it as a character.
    Putc,
    /// Pop a value and write it in decimal.
    Puti,
    /// Sum.
    Add,
    /// Difference, bottom minus top.
    Sub,
    /// Product.
    Mul,
    /// Quotient, rounded toward zero.
    Div,
    /// Remainder of `Div`.
    Mod,
    /// Negate the top.
    Inv,
    /// 1 when equal, else 0.
    Eq,
    /// 1 when different, else 0.
    Ne,
    /// 1 when bottom > top, else 0.
    Gt,
    /// 1 when bottom < top, else 0.
    Lt,
    /// 1 when bottom >= top, else 0.
    Ge,
    /// 1 when bottom <= top, else 0.
    Le,
    /// Pop the program's result and stop.
    Exit,
}

/// The upper-case mnemonic of an operation.
pub open spec fn mnemonic_of(op: OperationCode) -> Seq<char> {
    match op {
        OperationCode::Isp => seq!['I', 'S', 'P'],
        OperationCode::La => seq!['L', 'A'],
        OperationCode::Lv => seq!['L', 'V'],
        OperationCode::Lc => seq!['L', 'C'],
        OperationCode::Li => seq!['L', 'I'],
        OperationCode::Dup => seq!['D', 'U', 'P'],
        OperationCode::Si => seq!['S', 'I'],
        OperationCode::Sv => seq!['S', 'V'],
        OperationCode::Sb => seq!['S', 'B'],
        OperationCode::B => seq!['B'],
        OperationCode::Bz => seq!['B', 'Z'],
        OperationCode::Call => seq!['C', 'A', 'L', 'L'],
        OperationCode::Ret => seq!['R', 'E', 'T'],
        OperationCode::Getc => seq!['G', 'E', 'T', 'C'],
        OperationCode::Geti => seq!['G', 'E', 'T', 'I'],
        OperationCode::Putc => seq!['P', 'U', 'T', 'C'],
        OperationCode::Puti => seq!['P', 'U', 'T', 'I'],
        OperationCode::Add => seq!['A', 'D', 'D'],
        OperationCode::Sub => seq!['S', 'U', 'B'],
        OperationCode::Mul => seq!['M', 'U', 'L'],
        OperationCode::Div => seq!['D', 'I', 'V'],
        OperationCode::Mod => seq!['M', 'O', 'D'],
        OperationCode::Inv => seq!['I', 'N', 'V'],
        OperationCode::Eq => seq!['E', 'Q'],
        OperationCode::Ne => seq!['N', 'E'],
        OperationCode::Gt => seq!['G', 'T'],
        OperationCode::Lt => seq!['L', 'T'],
        OperationCode::Ge => seq!['G', 'E'],
        OperationCode::Le => seq!['L', 'E'],
        OperationCode::Exit => seq!['E', 'X', 'I', 'T'],
    }
}

/// How many operands an operation takes.
pub open spec fn arity_of(op: OperationCode) -> nat {
    match op {
        OperationCode::La | OperationCode::Lv | OperationCode::Sv => 2,
        OperationCode::Isp | OperationCode::Lc | OperationCode::Sb | OperationCode::B | OperationCode::Bz | OperationCode::Call => 1,
        _ => 0,
    }
}

/// The operation whose mnemonic is exactly `s`, if any.
pub open spec fn opcode_named(s: Seq<char>) -> Option<OperationCode> {
    if s == seq!['I', 'S', 'P'] {
        Some(OperationCode::Isp)
    }     else if s == seq!['L', 'A'] {
        Some(OperationCode::La)
    }     else if s == seq!['L', 'V'] {
        Some(OperationCode::Lv)
    }     else if s == seq!['L', 'C'] {
        Some(OperationCode::Lc)
    }     else if s == seq!['L', 'I'] {
        Some(OperationCode::Li)
    }     else if s == seq!['D', 'U', 'P'] {
        Some(OperationCode::Dup)
    }     else if s == seq!['S', 'I'] {
        Some(OperationCode::Si)
    }     else if s == seq!['S', 'V'] {
        Some(OperationCode::Sv)
    }     else if s == seq!['S', 'B'] {
        Some(OperationCode::Sb)
    }     else if s == seq!['B'] {
        Some(OperationCode::B)
    }     else if s == seq!['B', 'Z'] {
        Some(OperationCode::Bz)
    }     else if s == seq!['C', 'A', 'L', 'L'] {
        Some(OperationCode::Call)
    }     else if s == seq!['R', 'E', 'T'] {
        Some(OperationCode::Ret)
    }     else if s == seq!['G', 'E', 'T', 'C'] {
        Some(OperationCode::Getc)
    }     else if s == seq!['G', 'E', 'T', 'I'] {
        Some(OperationCode::Geti)
    }     else if s == seq!['P', 'U', 'T', 'C'] {
        Some(OperationCode::Putc)
    }     else if s == seq!['P', 'U', 'T', 'I'] {
        Some(OperationCode::Puti)
    }     else if s == seq!['A', 'D', 'D'] {
        Some(OperationCode::Add)
    }     else if s == seq!['S', 'U', 'B'] {
        Some(OperationCode::Sub)
    }     else if s == seq!['M', 'U', 'L'] {
        Some(OperationCode::Mul)
    }     else if s == seq!['D', 'I', 'V'] {
        Some(OperationCode::Div)
    }     else if s == seq!['M', 'O', 'D'] {
        Some(OperationCode::Mod)
    }     else if s == seq!['I', 'N', 'V'] {
        Some(OperationCode::Inv)
    }     else if s == seq!['E', 'Q'] {
        Some(OperationCode::Eq)
    }     else if s == seq!['N', 'E'] {
        Some(OperationCode::Ne)
    }     else if s == seq!['G', 'T'] {
        Some(OperationCode::Gt)
    }     else if s == seq!['L', 'T'] {
        Some(OperationCode::Lt)
    }     else if s == seq!['G', 'E'] {
        Some(OperationCode::Ge)
    }     else if s == seq!['L', 'E'] {
        Some(OperationCode::Le)
    }     else if s == seq!['E', 'X', 'I', 'T'] {
        Some(OperationCode::Exit)
    } else {
        None
    }
}

/// Each mnemonic names its own operation and is written in capitals.
pub proof fn lemma_mnemonic(op: OperationCode)
    ensures
        opcode_named(mnemonic_of(op)) == Some(op),
        is_capitals(mnemonic_of(op)),
        mnemonic_of(op).len() > 0,
{
    match op {
        OperationCode::Isp => {
            assert(mnemonic_of(op).len() == 3);
        },
        OperationCode::La => {
            assert(mnemonic_of(op).len() == 2);
        },
        OperationCode::Lv => {
            assert(mnemonic_of(op).len() == 2);
        },
        OperationCode::Lc => {
            assert(mnemonic_of(op).len() == 2);
        },
        OperationCode::Li => {
            assert(mnemonic_of(op).len() == 2);
        },
        OperationCode::Dup => {
            assert(mnemonic_of(op).len() == 3);
        },
        OperationCode::Si => {
            assert(mnemonic_of(op).len() == 2);
        },
        OperationCode::Sv => {
            assert(mnemonic_of(op).len() == 2);
        },
        OperationCode::Sb => {
            assert(mnemonic_of(op).len() == 2);
        },
        OperationCode::B => {
            assert(mnemonic_of(op).len() == 1);
        },
        OperationCode::Bz => {
            assert(mnemonic_of(op).len() == 2);
        },
        OperationCode::Call => {
            assert(mnemonic_of(op).len() == 4);
        },
        OperationCode::Ret => {
            assert(mnemonic_of(op).len() == 3);
        },
        OperationCode::Getc => {
            assert(mnemonic_of(op).len() == 4);
        },
        OperationCode::Geti => {
            assert(mnemonic_of(op).len() == 4);
        },
        OperationCode::Putc => {
            assert(mnemonic_of(op).len() == 4);
        },
        OperationCode::Puti => {
            assert(mnemonic_of(op).len() == 4);
        },
        OperationCode::Add => {
            assert(mnemonic_of(op).len() == 3);
        },
        OperationCode::Sub => {
            assert(mnemonic_of(op).len() == 3);
        },
        OperationCode::Mul => {
            assert(mnemonic_of(op).len() == 3);
        },
        OperationCode::Div => {
            assert(mnemonic_of(op).len() == 3);
        },
        OperationCode::Mod => {
            assert(mnemonic_of(op).len() == 3);
        },
        OperationCode::Inv => {
            assert(mnemonic_of(op).len() == 3);
        },
        OperationCode::Eq => {
            assert(mnemonic_of(op).len() == 2);
        },
        OperationCode::Ne => {
            assert(mnemonic_of(op).len() == 2);
        },
        OperationCode::Gt => {
            assert(mnemonic_of(op).len() == 2);
        },
        OperationCode::Lt => {
            assert(mnemonic_of(op).len() == 2);
        },
        OperationCode::Ge => {
            assert(mnemonic_of(op).len() == 2);
        },
        OperationCode::Le => {
            assert(mnemonic_of(op).len() == 2);
        },
        OperationCode::Exit => {
            assert(mnemonic_of(op).len() == 4);
        },
    }
}

impl OperationCode {
    /// The mnemonic, in capitals.
    pub fn mnemonic(&self) -> (r: &'static str)
        ensures
            r@ == mnemonic_of(*self),
    {
        match self {
            OperationCode::Isp => {
                proof {
                    reveal_strlit("ISP");
                }
                "ISP"
            },
            OperationCode::La => {
                proof {
                    reveal_strlit("LA");
                }
                "LA"
            },
            OperationCode::Lv => {
                proof {
                    reveal_strlit("LV");
                }
                "LV"
            },
            OperationCode::Lc => {
                proof {
                    reveal_strlit("LC");
                }
                "LC"
            },
            OperationCode::Li => {
                proof {
                    reveal_strlit("LI");
                }
                "LI"
            },
            OperationCode::Dup => {
                proof {
                    reveal_strlit("DUP");
                }
                "DUP"
            },
            OperationCode::Si => {
                proof {
                    reveal_strlit("SI");
                }
                "SI"
            },
            OperationCode::Sv => {
                proof {
                    reveal_strlit("SV");
                }
                "SV"
            },
            OperationCode::Sb => {
                proof {
                    reveal_strlit("SB");
                }
                "SB"
            },
            OperationCode::B => {
                proof {
                    reveal_strlit("B");
                }
                "B"
            },
            OperationCode::Bz => {
                proof {
                    reveal_strlit("BZ");
                }
                "BZ"
            },
            OperationCode::Call => {
                proof {
                    reveal_strlit("CALL");
                }
                "CALL"
            },
            OperationCode::Ret => {
                proof {
                    reveal_strlit("RET");
                }
                "RET"
            },
            OperationCode::Getc => {
                proof {
                    reveal_strlit("GETC");
                }
                "GETC"
            },
            OperationCode::Geti => {
                proof {
                    reveal_strlit("GETI");
                }
                "GETI"
            },
            OperationCode::Putc => {
                proof {
                    reveal_strlit("PUTC");
                }
                "PUTC"
            },
            OperationCode::Puti => {
                proof {
                    reveal_strlit("PUTI");
                }
                "PUTI"
            },
            OperationCode::Add => {
                proof {
                    reveal_strlit("ADD");
                }
                "ADD"
            },
            OperationCode::Sub => {
                proof {
                    reveal_strlit("SUB");
                }
                "SUB"
            },
            OperationCode::Mul => {
                proof {
                    reveal_strlit("MUL");
                }
                "MUL"
            },
            OperationCode::Div => {
                proof {
                    reveal_strlit("DIV");
                }
                "DIV"
            },
            OperationCode::Mod => {
                proof {
                    reveal_strlit("MOD");
                }
                "MOD"
            },
            OperationCode::Inv => {
                proof {
                    reveal_strlit("INV");
                }
                "INV"
            },
            OperationCode::Eq => {
                proof {
                    reveal_strlit("EQ");
                }
                "EQ"
            },
            OperationCode::Ne => {
                proof {
                    reveal_strlit("NE");
                }
                "NE"
            },
            OperationCode::Gt => {
                proof {
                    reveal_strlit("GT");
                }
                "GT"
            },
            OperationCode::Lt => {
                proof {
                    reveal_strlit("LT");
                }
                "LT"
            },
            OperationCode::Ge => {
                proof {
                    reveal_strlit("GE");
                }
                "GE"
            },
            OperationCode::Le => {
                proof {
                    reveal_strlit("LE");
                }
                "LE"
            },
            OperationCode::Exit => {
                proof {
                    reveal_strlit("EXIT");
                }
                "EXIT"
            },
        }
    }

    /// The mnemonic as an owned string.
    pub fn to_string(&self) -> (r: String)
        ensures
            r@ == mnemonic_of(*self),
    {
        String::from_str(self.mnemonic())
    }

    /// How many operands the operation takes.
    pub fn arity(&self) -> (r: usize)
        ensures
            r == arity_of(*self),
    {
        match self {
            OperationCode::La | OperationCode::Lv | OperationCode::Sv => 2,
            OperationCode::Isp | OperationCode::Lc | OperationCode::Sb | OperationCode::B | OperationCode::Bz | OperationCode::Call => 1,
            _ => 0,
        }
    }

    /// The operation whose mnemonic is exactly `name` (already in capitals).
    pub fn from_mnemonic(name: &str) -> (r: Option<OperationCode>)
        ensures
            r == opcode_named(name@),
    {
        if str_equals(name, OperationCode::Isp.mnemonic()) {
            Some(OperationCode::Isp)
        }         else if str_equals(name, OperationCode::La.mnemonic()) {
            Some(OperationCode::La)
        }         else if str_equals(name, OperationCode::Lv.mnemonic()) {
            Some(OperationCode::Lv)
        }         else if str_equals(name, OperationCode::Lc.mnemonic()) {
            Some(OperationCode::Lc)
        }         else if str_equals(name, OperationCode::Li.mnemonic()) {
            Some(OperationCode::Li)
        }         else if str_equals(name, OperationCode::Dup.mnemonic()) {
            Some(OperationCode::Dup)
        }         else if str_equals(name, OperationCode::Si.mnemonic()) {
            Some(OperationCode::Si)
        }         else if str_equals(name, OperationCode::Sv.mnemonic()) {
            Some(OperationCode::Sv)
        }         else if str_equals(name, OperationCode::Sb.mnemonic()) {
            Some(OperationCode::Sb)
        }         else if str_equals(name, OperationCode::B.mnemonic()) {
            Some(OperationCode::B)
        }         else if str_equals(name, OperationCode::Bz.mnemonic()) {
            Some(OperationCode::Bz)
        }         else if str_equals(name, OperationCode::Call.mnemonic()) {
            Some(OperationCode::Call)
        }         else if str_equals(name, OperationCode::Ret.mnemonic()) {
            Some(OperationCode::Ret)
        }         else if str_equals(name, OperationCode::Getc.mnemonic()) {
            Some(OperationCode::Getc)
        }         else if str_equals(name, OperationCode::Geti.mnemonic()) {
            Some(OperationCode::Geti)
        }         else if str_equals(name, OperationCode::Putc.mnemonic()) {
            Some(OperationCode::Putc)
        }         else if str_equals(name, OperationCode::Puti.mnemonic()) {
            Some(OperationCode::Puti)
        }         else if str_equals(name, OperationCode::Add.mnemonic()) {
            Some(OperationCode::Add)
        }         else if str_equals(name, OperationCode::Sub.mnemonic()) {
            Some(OperationCode::Sub)
        }         else if str_equals(name, OperationCode::Mul.mnemonic()) {
            Some(OperationCode::Mul)
        }         else if str_equals(name, OperationCode::Div.mnemonic()) {
            Some(OperationCode::Div)
        }         else if str_equals(name, OperationCode::Mod.mnemonic()) {
            Some(OperationCode::Mod)
        }         else if str_equals(name, OperationCode::Inv.mnemonic()) {
            Some(OperationCode::Inv)
        }         else if str_equals(name, OperationCode::Eq.mnemonic()) {
            Some(OperationCode::Eq)
        }         else if str_equals(name, OperationCode::Ne.mnemonic()) {
            Some(OperationCode::Ne)
        }         else if str_equals(name, OperationCode::Gt.mnemonic()) {
            Some(OperationCode::Gt)
        }         else if str_equals(name, OperationCode::Lt.mnemonic()) {
            Some(OperationCode::Lt)
        }         else if str_equals(name, OperationCode::Ge.mnemonic()) {
            Some(OperationCode::Ge)
        }         else if str_equals(name, OperationCode::Le.mnemonic()) {
            Some(OperationCode::Le)
        }         else if str_equals(name, OperationCode::Exit.mnemonic()) {
            Some(OperationCode::Exit)
        } else {
            None
        }
    }

    /// Reads an operation from text: surrounding ASCII whitespace is
    /// ignored and letters match in either case.
    pub fn parse(s: &str) -> (r: Option<OperationCode>)
        ensures
            r == opcode_named(upper_of(trim(s@))),
    {
        let upper = uppercase(trim_spaces(s));
        OperationCode::from_mnemonic(upper.as_str())
    }
}

impl std::str::FromStr for OperationCode {
    type Err = ParseErrorKind;

    fn from_str(s: &str) -> Result<OperationCode, ParseErrorKind> {
        match OperationCode::parse(s) {
            Some(op) => Ok(op),
            None => Err(ParseErrorKind::UnknownOpcode),
        }
    }
}

/// What is wrong with a line of a listing.
#[derive(Clone, Copy, Debug, PartialEq, Eq, Structural)]
pub enum ParseErrorKind {
    /// The first token names no operation.
    UnknownOpcode,
    /// The operation takes `expected` operands but the line gives `found`.
    ArityMismatch { expected: usize, found: usize },
    /// An operand is not a decimal `i32`.
    InvalidOperand,
}

/// A rejected listing: the first bad line, counted from 1, and what is
/// wrong with it.
#[derive(Clone, Copy, Debug, PartialEq, Eq, Structural)]
pub struct ParseError {
    pub line: usize,
    pub kind: ParseErrorKind,
}

/// One instruction: an operation and two operand slots, of which the first
/// `arity` are filled.
#[derive(Clone, Copy, Debug, PartialEq, Eq)]
pub struct Instruction {
    pub operation_code: OperationCode,
    pub operand: [Option<i32>; 2],
}

impl Instruction {
    /// Exactly as many operands as the operation takes, in the first slots.
    pub open spec fn well_formed(self) -> bool {
        &&& (self.operand[0] is Some <==> arity_of(self.operation_code) >= 1)
        &&& (self.operand[1] is Some <==> arity_of(self.operation_code) >= 2)
    }

    /// The canonical text of the instruction.
    pub fn to_string(&self) -> (r: String)
        ensures
            r@ == render(*self),
    {
        let mut out = self.operation_code.to_string();
        let mut k: usize = 0;
        while k < 2
            invariant
                k <= 2,
                out@ == mnemonic_of(self.operation_code) + operand_text(
                    if k >= 1 { self.operand[0] } else { None },
                ) + operand_text(if k >= 2 { self.operand[1] } else { None }),
            decreases 2 - k,
        {
            match self.operand[k] {
                Some(v) => {
                    let digits = decimal_string(v);
                    out.append(" ");
                    out.append(digits.as_str());
                    proof {
                        reveal_strlit(" ");
                    }
                },
                None => {},
            }
            k = k + 1;
        }
        out
    }
}

/// The text of one operand slot: a space and the decimal value, or nothing.
pub open spec fn operand_text(o: Option<i32>) -> Seq<char> {
    match o {
        Some(v) => seq![' '] + decimal_text(v as int),
        None => Seq::empty(),
    }
}

/// The canonical text of an instruction: the mnemonic in capitals, then each
/// present operand in decimal, separated by single spaces.
pub open spec fn render(i: Instruction) -> Seq<char> {
    mnemonic_of(i.operation_code) + operand_text(i.operand[0]) + operand_text(i.operand[1])
}

/// The operand that the `k`th token of `args` spells, or `None` past the end.
pub open spec fn operand_at(args: Seq<Seq<char>>, k: int) -> Option<i32> {
    if k < args.len() {
        decimal_value(args[k])
    } else {
        None
    }
}

/// The instruction made of `op` and the operand tokens `args`.
pub open spec fn assemble(op: OperationCode, args: Seq<Seq<char>>) -> Result<
    Instruction,
    ParseErrorKind,
> {
    if args.len() != arity_of(op) {
        Err(ParseErrorKind::ArityMismatch { expected: arity_of(op) as usize, found: args.len() as usize })
    } else if (args.len() >= 1 && decimal_value(args[0]) is None) || (args.len() >= 2
        && decimal_value(args[1]) is None) {
        Err(ParseErrorKind::InvalidOperand)
    } else {
        Ok(Instruction { operation_code: op, operand: [operand_at(args, 0), operand_at(args, 1)] })
    }
}

/// The tokens of a line once its comment is cut off.
pub open spec fn line_tokens(s: Seq<char>) -> Seq<Seq<char>> {
    tokens(strip_comment(s))
}

/// What one line of a listing holds, given `folded`, the upper-case form of
/// its first token: nothing when it has no tokens, else an instruction or
/// an error.
pub open spec fn line_with_folded(s: Seq<char>, folded: Seq<char>) -> Result<
    Option<Instruction>,
    ParseErrorKind,
> {
    let toks = line_tokens(s);
    if toks.len() == 0 {
        Ok(None)
    } else {
        match opcode_named(folded) {
            None => Err(ParseErrorKind::UnknownOpcode),
            Some(op) => match assemble(op, toks.drop_first()) {
                Ok(i) => Ok(Some(i)),
                Err(e) => Err(e),
            },
        }
    }
}

/// What one line of a listing holds; the operation is matched in either case.
pub open spec fn parse_line_spec(s: Seq<char>) -> Result<Option<Instruction>, ParseErrorKind> {
    line_with_folded(s, upper_of(line_tokens(s)[0]))
}

/// The program that a listing holds, lines in order, or the error of its
/// first bad line.
pub open spec fn parse_program(lines: Seq<Seq<char>>) -> Result<Seq<Instruction>, ParseError>
    decreases lines.len(),
{
    if lines.len() == 0 {
        Ok(Seq::empty())
    } else {
        match parse_program(lines.drop_last()) {
            Err(e) => Err(e),
            Ok(p) => match parse_line_spec(lines.last()) {
                Err(kind) => Err(ParseError { line: lines.len() as usize, kind }),
                Ok(None) => Ok(p),
                Ok(Some(i)) => Ok(p.push(i)),
            },
        }
    }
}

/// The instruction made of `op` and its operand tokens.
pub fn instruction_from_tokens(op: OperationCode, args: &[&str]) -> (r: Result<
    Instruction,
    ParseErrorKind,
>)
    ensures
        r == assemble(op, args@.map_values(|t: &str| t@)),
        r matches Ok(i) ==> i.well_formed(),
{
    let ghost views = args@.map_values(|t: &str| t@);
    let arity = op.arity();
    if args.len() != arity {
        return Err(ParseErrorKind::ArityMismatch { expected: arity, found: args.len() });
    }
    let o0 = if args.len() >= 1 {
        match parse_decimal(args[0]) {
            Some(v) => Some(v),
            None => return Err(ParseErrorKind::InvalidOperand),
        }
    } else {
        None
    };
    let o1 = if args.len() >= 2 {
        match parse_decimal(args[1]) {
            Some(v) => Some(v),
            None => return Err(ParseErrorKind::InvalidOperand),
        }
    } else {
        None
    };
    Ok(Instruction { operation_code: op, operand: [o0, o1] })
}

/// Reads one line of a listing. A line with no tokens once its `//`
/// comment is cut off gives `None`.
pub fn parse_line(line: &str) -> (r: Result<Option<Instruction>, ParseErrorKind>)
    ensures
        r == parse_line_spec(line@),
        r matches Ok(Some(i)) ==> i.well_formed(),
        line_tokens(line@).len() > 0 && is_capitals(line_tokens(line@)[0]) ==> r
            == line_with_folded(line@, line_tokens(line@)[0]),
{
    let stripped = remove_comments(line);
    let toks = split_tokens(stripped.as_str());
    let ghost views = toks@.map_values(|t: &str| t@);
    if toks.len() == 0 {
        return Ok(None);
    }
    let upper = uppercase(toks[0]);
    match OperationCode::from_mnemonic(upper.as_str()) {
        None => Err(ParseErrorKind::UnknownOpcode),
        Some(op) => {
            let args = &toks.as_slice()[1..toks.len()];
            assert(args@.map_values(|t: &str| t@) =~= views.drop_first());
            match instruction_from_tokens(op, args) {
                Ok(i) => Ok(Some(i)),
                Err(e) => Err(e),
            }
        },
    }
}

/// A parse error that a prefix of a listing already has is the error of
/// the whole listing.
proof fn lemma_error_persists(lines: Seq<Seq<char>>, k: int)
    requires
        0 <= k <= lines.len(),
        parse_program(lines.take(k)) is Err,
    ensures
        parse_program(lines) == parse_program(lines.take(k)),
    decreases lines.len(),
{
    if k == lines.len() {
        assert(lines.take(k) =~= lines);
    } else {
        assert(lines.drop_last().take(k) =~= lines.take(k));
        lemma_error_persists(lines.drop_last(), k);
    }
}

/// A program: the instructions of a listing in source order.
pub struct Code {
    instruction_vec: Vec<Instruction>,
}

impl View for Code {
    type V = Seq<Instruction>;

    closed spec fn view(&self) -> Seq<Instruction> {
        self.instruction_vec@
    }
}

impl Code {
    /// Every instruction has as many operands as its operation takes.
    pub open spec fn wf(&self) -> bool {
        forall|i: int| 0 <= i < self@.len() ==> (#[trigger] self@[i]).well_formed()
    }

    /// The instruction at `program_counter`.
    pub fn get_instruction(&self, program_counter: usize) -> (r: Instruction)
        requires
            program_counter < self@.len(),
        ensures
            r == self@[program_counter as int],
    {
        self.instruction_vec[program_counter]
    }

    /// The number of instructions.
    pub fn len(&self) -> (r: usize)
        ensures
            r == self@.len(),
    {
        self.instruction_vec.len()
    }

    /// An empty program.
    pub fn new() -> (r: Code)
        ensures
            r@ == Seq::<Instruction>::empty(),
            r.wf(),
    {
        Code { instruction_vec: Vec::new() }
    }

    /// Loads a listing, one element per line, after the instructions already
    /// held. A listing with a bad line is rejected as a whole: the program is
    /// left as it was and the first bad line is reported.
    pub fn read(&mut self, lines: &Vec<String>) -> (r: Result<(), ParseError>)
        requires
            old(self).wf(),
        ensures
            final(self).wf(),
            match parse_program(lines@.map_values(|l: String| l@)) {
                Ok(p) => r is Ok && final(self)@ == old(self)@ + p,
                Err(e) => r == Err::<(), ParseError>(e) && final(self)@ == old(self)@,
            },
    {
        let ghost views = lines@.map_values(|l: String| l@);
        let mut parsed: Vec<Instruction> = Vec::new();
        let mut i: usize = 0;
        assert(views.take(0) =~= Seq::<Seq<char>>::empty());
        while i < lines.len()
            invariant
                views == lines@.map_values(|l: String| l@),
                self@ == old(self)@,
                self.wf(),
                i <= lines.len(),
                parse_program(views.take(i as int)) == Ok::<Seq<Instruction>, ParseError>(parsed@),
                forall|k: int| 0 <= k < parsed@.len() ==> (#[trigger] parsed@[k]).well_formed(),
            decreases lines.len() - i,
        {
            assert(views.take(i + 1).drop_last() =~= views.take(i as int));
            assert(views.take(i + 1).last() == lines@[i as int]@);
            match parse_line(lines[i].as_str()) {
                Err(kind) => {
                    proof {
                        lemma_error_persists(views, i + 1);
                    }
                    return Err(ParseError { line: i + 1, kind });
                },
                Ok(None) => {},
                Ok(Some(instruction)) => {
                    parsed.push(instruction);
                },
            }
            i = i + 1;
        }
        assert(views.take(lines.len() as int) =~= views);
        let ghost before = self@;
        let mut k: usize = 0;
        while k < parsed.len()
            invariant
                k <= parsed.len(),
                self@ == before + parsed@.take(k as int),
                forall|j: int| 0 <= j < before.len() ==> (#[trigger] before[j]).well_formed(),
                forall|j: int| 0 <= j < parsed@.len() ==> (#[trigger] parsed@[j]).well_formed(),
            decreases parsed.len() - k,
        {
            self.instruction_vec.push(parsed[k]);
            assert(parsed@.take(k + 1) =~= parsed@.take(k as int).push(parsed@[k as int]));
            k = k + 1;
        }
        assert(parsed@.take(parsed.len() as int) =~= parsed@);
        assert forall|j: int| 0 <= j < self@.len() implies (#[trigger] self@[j]).well_formed() by {
            if j >= before.len() {
                assert(self@[j] == parsed@[j - before.len()]);
            }
        }
        Ok(())
    }

    /// Adds an instruction at the end.
    pub fn append_instruction(
        &mut self,
        operation_code: OperationCode,
        operand0: Option<i32>,
        operand1: Option<i32>,
    )
        requires
            old(self).wf(),
            (Instruction { operation_code, operand: [operand0, operand1] }).well_formed(),
        ensures
            final(self)@ == old(self)@.push(
                Instruction { operation_code, operand: [operand0, operand1] },
            ),
            final(self).wf(),
    {
        self.instruction_vec.push(Instruction { operation_code, operand: [operand0, operand1] });
        assert forall|i: int| 0 <= i < self@.len() implies (#[trigger] self@[i]).well_formed() by {
            if i < old(self)@.len() {
                assert(self@[i] == old(self)@[i]);
            }
        }
    }

    /// Replaces the instruction at `index`.
    pub fn set_instruction(
        &mut self,
        index: usize,
        operation_code: OperationCode,
        operand0: Option<i32>,
        operand1: Option<i32>,
    )
        requires
            old(self).wf(),
            index < old(self)@.len(),
            (Instruction { operation_code, operand: [operand0, operand1] }).well_formed(),
        ensures
            final(self)@ == old(self)@.update(
                index as int,
                Instruction { operation_code, operand: [operand0, operand1] },
            ),
            final(self).wf(),
    {
        self.instruction_vec.set(index, Instruction { operation_code, operand: [operand0, operand1] });
        assert forall|i: int| 0 <= i < self@.len() implies (#[trigger] self@[i]).well_formed() by {
            if i != index {
                assert(self@[i] == old(self)@[i]);
            }
        }
    }

    /// The canonical text of the program, one instruction per line, each
    /// line ended by a line feed.
    pub fn to_text(&self) -> (r: String)
        ensures
            r@ == program_text(self@),
    {
        let mut out = String::new();
        let mut i: usize = 0;
        while i < self.instruction_vec.len()
            invariant
                i <= self@.len(),
                self@ == self.instruction_vec@,
                out@ == program_text(self@.take(i as int)),
            decreases self@.len() - i,
        {
            let line = self.instruction_vec[i].to_string();
            out.append(line.as_str());
            out.append("\n");
            proof {
                reveal_strlit("\n");
                assert(self@.take(i + 1).drop_last() =~= self@.take(i as int));
            }
            i = i + 1;
        }
        assert(self@.take(i as int) =~= self@);
        out
    }
}

/// The canonical text of a program: each instruction's text and a line feed.
pub open spec fn program_text(p: Seq<Instruction>) -> Seq<char>
    decreases p.len(),
{
    if p.len() == 0 {
        Seq::empty()
    } else {
        program_text(p.drop_last()) + render(p.last()) + seq!['\n']
    }
}

/// Reading back the canonical text of a well-formed instruction gives the
/// instruction. Its first token is the mnemonic, which is written in
/// capitals and so comes out of case folding as it went in.
pub proof fn lemma_render_parse(i: Instruction)
    requires
        i.well_formed(),
    ensures
        line_tokens(render(i)).len() > 0,
        line_tokens(render(i))[0] == mnemonic_of(i.operation_code),
        is_capitals(mnemonic_of(i.operation_code)),
        line_with_folded(render(i), mnemonic_of(i.operation_code)) == Ok::<
            Option<Instruction>,
            ParseErrorKind,
        >(Some(i)),
{
    broadcast use vstd::array::axiom_array_ext_equal;

    let op = i.operation_code;
    let name = mnemonic_of(op);
    lemma_mnemonic(op);
    lemma_capitals_plain(name);
    let t0 = operand_text(i.operand[0]);
    let t1 = operand_text(i.operand[1]);
    let s = render(i);
    assert(s == name + (t0 + t1)) by {
        assert(name + t0 + t1 =~= name + (t0 + t1));
    }
    let mut args: Seq<Seq<char>> = Seq::empty();
    if i.operand[0] is Some {
        let v0 = i.operand[0]->0;
        lemma_decimal_text_plain(v0 as int);
        lemma_decimal_round_trip(v0);
    }
    if i.operand[1] is Some {
        let v1 = i.operand[1]->0;
        lemma_decimal_text_plain(v1 as int);
        lemma_decimal_round_trip(v1);
    }
    assert forall|k: int| 0 <= k < s.len() implies #[trigger] s[k] != '/' by {
        if k < name.len() {
            assert(s[k] == name[k]);
        } else if k < name.len() + t0.len() {
            assert(s[k] == t0[k - name.len()]);
            if k > name.len() {
                assert(t0[k - name.len()] == decimal_text(i.operand[0]->0 as int)[k - name.len() - 1]);
            }
        } else {
            assert(s[k] == t1[k - name.len() - t0.len()]);
            if k > name.len() + t0.len() {
                assert(t1[k - name.len() - t0.len()] == decimal_text(i.operand[1]->0 as int)[k
                    - name.len() - t0.len() - 1]);
            }
        }
    }
    lemma_strip_without_slash(s);
    let toks1 = if i.operand[1] is Some {
        let d1 = decimal_text(i.operand[1]->0 as int);
        lemma_tokens_after_word(d1, Seq::empty());
        assert(d1 + Seq::<char>::empty() =~= d1);
        lemma_tokens_after_space(d1);
        seq![d1]
    } else {
        Seq::<Seq<char>>::empty()
    };
    assert(tokens(t1) == toks1);
    let toks0 = if i.operand[0] is Some {
        let d0 = decimal_text(i.operand[0]->0 as int);
        lemma_tokens_after_word(d0, t1);
        lemma_tokens_after_space(d0 + t1);
        assert(t0 + t1 =~= seq![' '] + (d0 + t1));
        seq![d0] + toks1
    } else {
        assert(t0 + t1 =~= t1);
        toks1
    };
    assert(tokens(t0 + t1) == toks0);
    lemma_tokens_after_word(name, t0 + t1);
    assert(line_tokens(s) == seq![name] + toks0);
    assert((seq![name] + toks0).drop_first() =~= toks0);
    assert(toks0.len() == arity_of(op));
    let built = Instruction {
        operation_code: op,
        operand: [operand_at(toks0, 0), operand_at(toks0, 1)],
    };
    assert(built.operand[0] == i.operand[0]);
    assert(built.operand[1] == i.operand[1]);
    assert(built.operand =~= i.operand);
    assert(assemble(op, toks0) == Ok::<Instruction, ParseErrorKind>(built));
}

} // verus!
