//! The parser: consumes the token stream and groups it into labeled
//! instruction records. Each mnemonic has a fixed operand arity and type
//! signature; a mismatched operand kind, a stream that ends mid-instruction,
//! and a mnemonic outside the supported set are distinguishable hard errors —
//! a mnemonic is never silently dropped. A label declaration attaches to the
//! mnemonic that follows it; stray operand tokens between instructions are
//! skipped as separators.

use vstd::prelude::*;
use vstd::string::*;

use crate::cpu::Registers;
use crate::token::{Token, TokenV, str_eq};

verus! {

/// The target of a jump: a resolved address, or a label name resolved by the
/// assembler.
#[derive(Debug, PartialEq, Clone)]
pub enum JumpTarget {
    Address(u16),
    Label(String),
}

/// The mathematical value of a jump target.
pub ghost enum JumpTargetV {
    Address(u16),
    Label(Seq<char>),
}

impl View for JumpTarget {
    type V = JumpTargetV;

    open spec fn view(&self) -> JumpTargetV {
        match self {
            JumpTarget::Address(a) => JumpTargetV::Address(*a),
            JumpTarget::Label(l) => JumpTargetV::Label(l@),
        }
    }
}

impl DeepView for JumpTarget {
    type V = JumpTargetV;

    open spec fn deep_view(&self) -> JumpTargetV {
        self.view()
    }
}

/// One operation with its operands, as the parser accepts it.
#[derive(Debug, PartialEq, Clone)]
pub enum Ins {
    Mov(Registers, Registers),
    Mvi(Registers, u8),
    Jmp(JumpTarget),
    Add(Registers),
    Adi(u8),
    Adc(Registers),
    Sub(Registers),
    Lxi(Registers, u16),
    Lda(u16),
    Inx(Registers),
    Inr(Registers),
    Dcr(Registers),
    Jnz(JumpTarget),
    Lhld(u16),
    Xchg,
    Shld(u16),
    Jnc(JumpTarget),
    Cmp(Registers),
    Sta(u16),
    Ani(u8),
    Hlt,
}

/// The mathematical value of an operation.
pub ghost enum InsV {
    Mov(Registers, Registers),
    Mvi(Registers, u8),
    Jmp(JumpTargetV),
    Add(Registers),
    Adi(u8),
    Adc(Registers),
    Sub(Registers),
    Lxi(Registers, u16),
    Lda(u16),
    Inx(Registers),
    Inr(Registers),
    Dcr(Registers),
    Jnz(JumpTargetV),
    Lhld(u16),
    Xchg,
    Shld(u16),
    Jnc(JumpTargetV),
    Cmp(Registers),
    Sta(u16),
    Ani(u8),
    Hlt,
}

impl View for Ins {
    type V = InsV;

    open spec fn view(&self) -> InsV {
        match self {
            Ins::Mov(d, s) => InsV::Mov(*d, *s),
            Ins::Mvi(r, v) => InsV::Mvi(*r, *v),
            Ins::Jmp(t) => InsV::Jmp(t@),
            Ins::Add(r) => InsV::Add(*r),
            Ins::Adi(v) => InsV::Adi(*v),
            Ins::Adc(r) => InsV::Adc(*r),
            Ins::Sub(r) => InsV::Sub(*r),
            Ins::Lxi(r, a) => InsV::Lxi(*r, *a),
            Ins::Lda(a) => InsV::Lda(*a),
            Ins::Inx(r) => InsV::Inx(*r),
            Ins::Inr(r) => InsV::Inr(*r),
            Ins::Dcr(r) => InsV::Dcr(*r),
            Ins::Jnz(t) => InsV::Jnz(t@),
            Ins::Lhld(a) => InsV::Lhld(*a),
            Ins::Xchg => InsV::Xchg,
            Ins::Shld(a) => InsV::Shld(*a),
            Ins::Jnc(t) => InsV::Jnc(t@),
            Ins::Cmp(r) => InsV::Cmp(*r),
            Ins::Sta(a) => InsV::Sta(*a),
            Ins::Ani(v) => InsV::Ani(*v),
            Ins::Hlt => InsV::Hlt,
        }
    }
}

impl DeepView for Ins {
    type V = InsV;

    open spec fn deep_view(&self) -> InsV {
        self.view()
    }
}

impl JumpTarget {
    /// An equal jump target, rebuilt field by field.
    pub fn duplicate(&self) -> (r: JumpTarget)
        ensures
            r@ == self@,
    {
        match self {
            JumpTarget::Address(a) => JumpTarget::Address(*a),
            JumpTarget::Label(l) => JumpTarget::Label(l.clone()),
        }
    }
}

impl Ins {
    /// An equal operation, rebuilt field by field.
    pub fn duplicate(&self) -> (r: Ins)
        ensures
            r@ == self@,
    {
        match self {
            Ins::Mov(d, s) => Ins::Mov(*d, *s),
            Ins::Mvi(r, v) => Ins::Mvi(*r, *v),
            Ins::Jmp(t) => Ins::Jmp(t.duplicate()),
            Ins::Add(r) => Ins::Add(*r),
            Ins::Adi(v) => Ins::Adi(*v),
            Ins::Adc(r) => Ins::Adc(*r),
            Ins::Sub(r) => Ins::Sub(*r),
            Ins::Lxi(r, a) => Ins::Lxi(*r, *a),
            Ins::Lda(a) => Ins::Lda(*a),
            Ins::Inx(r) => Ins::Inx(*r),
            Ins::Inr(r) => Ins::Inr(*r),
            Ins::Dcr(r) => Ins::Dcr(*r),
            Ins::Jnz(t) => Ins::Jnz(t.duplicate()),
            Ins::Lhld(a) => Ins::Lhld(*a),
            Ins::Xchg => Ins::Xchg,
            Ins::Shld(a) => Ins::Shld(*a),
            Ins::Jnc(t) => Ins::Jnc(t.duplicate()),
            Ins::Cmp(r) => Ins::Cmp(*r),
            Ins::Sta(a) => Ins::Sta(*a),
            Ins::Ani(v) => Ins::Ani(*v),
            Ins::Hlt => Ins::Hlt,
        }
    }
}

/// A parse failure: an operand token of the wrong kind, a stream that ended
/// mid-instruction, or a mnemonic outside the supported set.
#[derive(Debug, PartialEq, Clone)]
pub enum ParseError {
    UnexpectedToken(Token),
    MissingToken,
    UnimplementedMnemonic(String),
}

/// The mathematical value of a parse failure.
pub ghost enum ParseErrorV {
    UnexpectedToken(TokenV),
    MissingToken,
    UnimplementedMnemonic(Seq<char>),
}

impl View for ParseError {
    type V = ParseErrorV;

    open spec fn view(&self) -> ParseErrorV {
        match self {
            ParseError::UnexpectedToken(t) => ParseErrorV::UnexpectedToken(t@),
            ParseError::MissingToken => ParseErrorV::MissingToken,
            ParseError::UnimplementedMnemonic(w) => ParseErrorV::UnimplementedMnemonic(w@),
        }
    }
}

impl DeepView for ParseError {
    type V = ParseErrorV;

    open spec fn deep_view(&self) -> ParseErrorV {
        self.view()
    }
}

/// An instruction record: the operation and an optional label declared on it.
#[derive(Debug, PartialEq, Clone)]
pub struct Instruction {
    pub label: Option<String>,
    pub ins: Ins,
}

/// The mathematical value of an instruction record.
pub ghost struct InstructionV {
    pub label: Option<Seq<char>>,
    pub ins: InsV,
}

impl View for Instruction {
    type V = InstructionV;

    open spec fn view(&self) -> InstructionV {
        InstructionV {
            label: match &self.label {
                Some(l) => Some(l@),
                None => None,
            },
            ins: self.ins@,
        }
    }
}

impl DeepView for Instruction {
    type V = InstructionV;

    open spec fn deep_view(&self) -> InstructionV {
        self.view()
    }
}

/// An unlabeled instruction record.
pub fn create_instruction(ins: Ins) -> (r: Instruction)
    ensures
        r@ == (InstructionV { label: None, ins: ins@ }),
{
    Instruction { label: None, ins }
}

/// The register operand at position `i`, with the next position.
pub open spec fn spec_next_register(toks: Seq<TokenV>, i: int) -> Result<
    (Registers, int),
    ParseErrorV,
> {
    if i >= toks.len() {
        Err(ParseErrorV::MissingToken)
    } else {
        match toks[i] {
            TokenV::Register(r) => Ok((r, i + 1)),
            t => Err(ParseErrorV::UnexpectedToken(t)),
        }
    }
}

/// The byte-literal operand at position `i`, with the next position.
pub open spec fn spec_next_number(toks: Seq<TokenV>, i: int) -> Result<(u8, int), ParseErrorV> {
    if i >= toks.len() {
        Err(ParseErrorV::MissingToken)
    } else {
        match toks[i] {
            TokenV::Number(v) => Ok((v, i + 1)),
            t => Err(ParseErrorV::UnexpectedToken(t)),
        }
    }
}

/// The address-literal operand at position `i`, with the next position.
pub open spec fn spec_next_address(toks: Seq<TokenV>, i: int) -> Result<(u16, int), ParseErrorV> {
    if i >= toks.len() {
        Err(ParseErrorV::MissingToken)
    } else {
        match toks[i] {
            TokenV::Address(a) => Ok((a, i + 1)),
            t => Err(ParseErrorV::UnexpectedToken(t)),
        }
    }
}

/// The jump-target operand at position `i` — an address literal or a label
/// use — with the next position.
pub open spec fn spec_next_jump_target(toks: Seq<TokenV>, i: int) -> Result<
    (JumpTargetV, int),
    ParseErrorV,
> {
    if i >= toks.len() {
        Err(ParseErrorV::MissingToken)
    } else {
        match toks[i] {
            TokenV::Word(w) => Ok((JumpTargetV::Label(w), i + 1)),
            TokenV::Address(a) => Ok((JumpTargetV::Address(a), i + 1)),
            t => Err(ParseErrorV::UnexpectedToken(t)),
        }
    }
}

/// The operation a mnemonic and the operand tokens from position `i` denote,
/// with the position after the operands; or the first operand error, or
/// `UnimplementedMnemonic` for a word outside the supported set.
pub open spec fn spec_parse_ins(toks: Seq<TokenV>, i: int, w: Seq<char>) -> Result<
    (InsV, int),
    ParseErrorV,
> {
    if w == "MVI"@ {
        match spec_next_register(toks, i) {
            Ok((r, i2)) => match spec_next_number(toks, i2) {
                Ok((v, i3)) => Ok((InsV::Mvi(r, v), i3)),
                Err(e) => Err(e),
            },
            Err(e) => Err(e),
        }
    } else if w == "JMP"@ {
        match spec_next_jump_target(toks, i) {
            Ok((t, i2)) => Ok((InsV::Jmp(t), i2)),
            Err(e) => Err(e),
        }
    } else if w == "MOV"@ {
        match spec_next_register(toks, i) {
            Ok((d, i2)) => match spec_next_register(toks, i2) {
                Ok((s, i3)) => Ok((InsV::Mov(d, s), i3)),
                Err(e) => Err(e),
            },
            Err(e) => Err(e),
        }
    } else if w == "ADD"@ {
        match spec_next_register(toks, i) {
            Ok((r, i2)) => Ok((InsV::Add(r), i2)),
            Err(e) => Err(e),
        }
    } else if w == "ADI"@ {
        match spec_next_number(toks, i) {
            Ok((v, i2)) => Ok((InsV::Adi(v), i2)),
            Err(e) => Err(e),
        }
    } else if w == "SUB"@ {
        match spec_next_register(toks, i) {
            Ok((r, i2)) => Ok((InsV::Sub(r), i2)),
            Err(e) => Err(e),
        }
    } else if w == "LXI"@ {
        match spec_next_register(toks, i) {
            Ok((r, i2)) => match spec_next_address(toks, i2) {
                Ok((a, i3)) => Ok((InsV::Lxi(r, a), i3)),
                Err(e) => Err(e),
            },
            Err(e) => Err(e),
        }
    } else if w == "INX"@ {
        match spec_next_register(toks, i) {
            Ok((r, i2)) => Ok((InsV::Inx(r), i2)),
            Err(e) => Err(e),
        }
    } else if w == "INR"@ {
        match spec_next_register(toks, i) {
            Ok((r, i2)) => Ok((InsV::Inr(r), i2)),
            Err(e) => Err(e),
        }
    } else if w == "DCR"@ {
        match spec_next_register(toks, i) {
            Ok((r, i2)) => Ok((InsV::Dcr(r), i2)),
            Err(e) => Err(e),
        }
    } else if w == "JNZ"@ {
        match spec_next_jump_target(toks, i) {
            Ok((t, i2)) => Ok((InsV::Jnz(t), i2)),
            Err(e) => Err(e),
        }
    } else if w == "CMP"@ {
        match spec_next_register(toks, i) {
            Ok((r, i2)) => Ok((InsV::Cmp(r), i2)),
            Err(e) => Err(e),
        }
    } else if w == "JNC"@ {
        match spec_next_jump_target(toks, i) {
            Ok((t, i2)) => Ok((InsV::Jnc(t), i2)),
            Err(e) => Err(e),
        }
    } else if w == "STA"@ {
        match spec_next_address(toks, i) {
            Ok((a, i2)) => Ok((InsV::Sta(a), i2)),
            Err(e) => Err(e),
        }
    } else if w == "LHLD"@ {
        match spec_next_address(toks, i) {
            Ok((a, i2)) => Ok((InsV::Lhld(a), i2)),
            Err(e) => Err(e),
        }
    } else if w == "SHLD"@ {
        match spec_next_address(toks, i) {
            Ok((a, i2)) => Ok((InsV::Shld(a), i2)),
            Err(e) => Err(e),
        }
    } else if w == "XCHG"@ {
        Ok((InsV::Xchg, i))
    } else if w == "ADC"@ {
        match spec_next_register(toks, i) {
            Ok((r, i2)) => Ok((InsV::Adc(r), i2)),
            Err(e) => Err(e),
        }
    } else if w == "LDA"@ {
        match spec_next_address(toks, i) {
            Ok((a, i2)) => Ok((InsV::Lda(a), i2)),
            Err(e) => Err(e),
        }
    } else if w == "ANI"@ {
        match spec_next_number(toks, i) {
            Ok((v, i2)) => Ok((InsV::Ani(v), i2)),
            Err(e) => Err(e),
        }
    } else if w == "HLT"@ {
        Ok((InsV::Hlt, i))
    } else {
        Err(ParseErrorV::UnimplementedMnemonic(w))
    }
}

/// A successful parse of a mnemonic never moves the position backwards, and
/// never past the end of the token stream.
pub proof fn lemma_parse_ins_bounds(toks: Seq<TokenV>, i: int, w: Seq<char>)
    requires
        0 <= i <= toks.len(),
    ensures
        match spec_parse_ins(toks, i, w) {
            Ok((ins, next)) => i <= next <= toks.len(),
            Err(_) => true,
        },
{
}

/// An instruction record prepended to the outcome of parsing the rest.
pub open spec fn parse_cons(ins: InstructionV, rest: Result<Seq<InstructionV>, ParseErrorV>) -> Result<
    Seq<InstructionV>,
    ParseErrorV,
> {
    match rest {
        Ok(is) => Ok(seq![ins] + is),
        Err(e) => Err(e),
    }
}

/// The instruction records of the token stream from position `i` on.
///
/// A label token attaches its name to the instruction parsed from the word
/// that follows it; a label followed by anything else, or standing at the
/// end, is dropped together with the token after it. A word is parsed as a
/// mnemonic. Any other token between instructions is skipped.
pub open spec fn spec_parse_from(toks: Seq<TokenV>, i: int) -> Result<
    Seq<InstructionV>,
    ParseErrorV,
>
    decreases toks.len() - i,
    when 0 <= i <= toks.len()
    via spec_parse_from_decreases
{
    if i >= toks.len() {
        Ok(Seq::empty())
    } else {
        match toks[i] {
            TokenV::Label(name) => {
                if i + 1 >= toks.len() {
                    Ok(Seq::empty())
                } else {
                    match toks[i + 1] {
                        TokenV::Word(w) => match spec_parse_ins(toks, i + 2, w) {
                            Ok((ins, next)) => parse_cons(
                                InstructionV { label: Some(name), ins },
                                spec_parse_from(toks, next),
                            ),
                            Err(e) => Err(e),
                        },
                        _ => spec_parse_from(toks, i + 2),
                    }
                }
            },
            TokenV::Word(w) => match spec_parse_ins(toks, i + 1, w) {
                Ok((ins, next)) => parse_cons(
                    InstructionV { label: None, ins },
                    spec_parse_from(toks, next),
                ),
                Err(e) => Err(e),
            },
            _ => spec_parse_from(toks, i + 1),
        }
    }
}

#[via_fn]
proof fn spec_parse_from_decreases(toks: Seq<TokenV>, i: int) {
    if 0 <= i && i < toks.len() {
        match toks[i] {
            TokenV::Label(_) => {
                if i + 1 < toks.len() {
                    match toks[i + 1] {
                        TokenV::Word(w) => {
                            lemma_parse_ins_bounds(toks, i + 2, w);
                        },
                        _ => {},
                    }
                }
            },
            TokenV::Word(w) => {
                lemma_parse_ins_bounds(toks, i + 1, w);
            },
            _ => {},
        }
    }
}

/// The instruction records of a whole token stream.
pub open spec fn spec_parse(toks: Seq<TokenV>) -> Result<Seq<InstructionV>, ParseErrorV> {
    spec_parse_from(toks, 0)
}

/// Already-produced records joined with the outcome of parsing the rest.
pub open spec fn parse_combine(
    pre: Seq<InstructionV>,
    rest: Result<Seq<InstructionV>, ParseErrorV>,
) -> Result<Seq<InstructionV>, ParseErrorV> {
    match rest {
        Ok(is) => Ok(pre + is),
        Err(e) => Err(e),
    }
}

proof fn lemma_parse_combine_cons(
    pre: Seq<InstructionV>,
    ins: InstructionV,
    rest: Result<Seq<InstructionV>, ParseErrorV>,
)
    ensures
        parse_combine(pre.push(ins), rest) == parse_combine(pre, parse_cons(ins, rest)),
{
    match rest {
        Ok(is) => {
            assert(pre.push(ins) + is =~= pre + (seq![ins] + is));
        },
        Err(_) => {},
    }
}

/// The register operand at the cursor; on success the cursor moves past it.
fn next_register(tokens: &Vec<Token>, pos: &mut usize) -> (r: Result<Registers, ParseError>)
    ensures
        match spec_next_register(tokens.deep_view(), *old(pos) as int) {
            Ok((reg, next)) => r == Ok::<Registers, ParseError>(reg) && *final(pos) == next,
            Err(e) => r is Err && r->Err_0@ == e,
        },
{
    if *pos >= tokens.len() {
        return Err(ParseError::MissingToken);
    }
    let t = &tokens[*pos];
    match t {
        Token::Register(reg) => {
            let out = *reg;
            *pos += 1;
            Ok(out)
        },
        _ => Err(ParseError::UnexpectedToken(t.duplicate())),
    }
}

/// The byte-literal operand at the cursor; on success the cursor moves past
/// it.
fn next_number(tokens: &Vec<Token>, pos: &mut usize) -> (r: Result<u8, ParseError>)
    ensures
        match spec_next_number(tokens.deep_view(), *old(pos) as int) {
            Ok((v, next)) => r == Ok::<u8, ParseError>(v) && *final(pos) == next,
            Err(e) => r is Err && r->Err_0@ == e,
        },
{
    if *pos >= tokens.len() {
        return Err(ParseError::MissingToken);
    }
    let t = &tokens[*pos];
    match t {
        Token::Number(v) => {
            let out = *v;
            *pos += 1;
            Ok(out)
        },
        _ => Err(ParseError::UnexpectedToken(t.duplicate())),
    }
}

/// The address-literal operand at the cursor; on success the cursor moves
/// past it.
fn next_address(tokens: &Vec<Token>, pos: &mut usize) -> (r: Result<u16, ParseError>)
    ensures
        match spec_next_address(tokens.deep_view(), *old(pos) as int) {
            Ok((a, next)) => r == Ok::<u16, ParseError>(a) && *final(pos) == next,
            Err(e) => r is Err && r->Err_0@ == e,
        },
{
    if *pos >= tokens.len() {
        return Err(ParseError::MissingToken);
    }
    let t = &tokens[*pos];
    match t {
        Token::Address(a) => {
            let out = *a;
            *pos += 1;
            Ok(out)
        },
        _ => Err(ParseError::UnexpectedToken(t.duplicate())),
    }
}

/// The jump-target operand at the cursor — an address literal or a label use;
/// on success the cursor moves past it.
fn next_jump_target(tokens: &Vec<Token>, pos: &mut usize) -> (r: Result<JumpTarget, ParseError>)
    ensures
        match spec_next_jump_target(tokens.deep_view(), *old(pos) as int) {
            Ok((t, next)) => r is Ok && r->Ok_0@ == t && *final(pos) == next,
            Err(e) => r is Err && r->Err_0@ == e,
        },
{
    if *pos >= tokens.len() {
        return Err(ParseError::MissingToken);
    }
    let t = &tokens[*pos];
    match t {
        Token::Word(w) => {
            let out = JumpTarget::Label(w.clone());
            *pos += 1;
            Ok(out)
        },
        Token::Address(a) => {
            let out = JumpTarget::Address(*a);
            *pos += 1;
            Ok(out)
        },
        _ => Err(ParseError::UnexpectedToken(t.duplicate())),
    }
}

/// Parses the operands of one mnemonic and builds the unlabeled instruction
/// record; on success the cursor is left after the consumed operands. Fails
/// with the first operand error, or with `UnimplementedMnemonic` when the
/// word is outside the supported set.
#[verifier::rlimit(100)]
pub fn parse_instruction(word: &str, tokens: &Vec<Token>, pos: &mut usize) -> (r: Result<
    Instruction,
    ParseError,
>)
    ensures
        match spec_parse_ins(tokens.deep_view(), *old(pos) as int, word@) {
            Ok((ins, next)) => r is Ok && r->Ok_0@ == (InstructionV { label: None, ins })
                && *final(pos) == next,
            Err(e) => r is Err && r->Err_0@ == e,
        },
{
    if str_eq(word, "MVI") {
        let register = match next_register(tokens, pos) {
            Ok(r) => r,
            Err(e) => { return Err(e); },
        };
        let value = match next_number(tokens, pos) {
            Ok(v) => v,
            Err(e) => { return Err(e); },
        };
        Ok(create_instruction(Ins::Mvi(register, value)))
    } else if str_eq(word, "JMP") {
        let target = match next_jump_target(tokens, pos) {
            Ok(t) => t,
            Err(e) => { return Err(e); },
        };
        Ok(create_instruction(Ins::Jmp(target)))
    } else if str_eq(word, "MOV") {
        let dest = match next_register(tokens, pos) {
            Ok(r) => r,
            Err(e) => { return Err(e); },
        };
        let source = match next_register(tokens, pos) {
            Ok(r) => r,
            Err(e) => { return Err(e); },
        };
        Ok(create_instruction(Ins::Mov(dest, source)))
    } else if str_eq(word, "ADD") {
        let register = match next_register(tokens, pos) {
            Ok(r) => r,
            Err(e) => { return Err(e); },
        };
        Ok(create_instruction(Ins::Add(register)))
    } else if str_eq(word, "ADI") {
        let value = match next_number(tokens, pos) {
            Ok(v) => v,
            Err(e) => { return Err(e); },
        };
        Ok(create_instruction(Ins::Adi(value)))
    } else if str_eq(word, "SUB") {
        let register = match next_register(tokens, pos) {
            Ok(r) => r,
            Err(e) => { return Err(e); },
        };
        Ok(create_instruction(Ins::Sub(register)))
    } else if str_eq(word, "LXI") {
        let register = match next_register(tokens, pos) {
            Ok(r) => r,
            Err(e) => { return Err(e); },
        };
        let address = match next_address(tokens, pos) {
            Ok(a) => a,
            Err(e) => { return Err(e); },
        };
        Ok(create_instruction(Ins::Lxi(register, address)))
    } else if str_eq(word, "INX") {
        let register = match next_register(tokens, pos) {
            Ok(r) => r,
            Err(e) => { return Err(e); },
        };
        Ok(create_instruction(Ins::Inx(register)))
    } else if str_eq(word, "INR") {
        let register = match next_register(tokens, pos) {
            Ok(r) => r,
            Err(e) => { return Err(e); },
        };
        Ok(create_instruction(Ins::Inr(register)))
    } else if str_eq(word, "DCR") {
        let register = match next_register(tokens, pos) {
            Ok(r) => r,
            Err(e) => { return Err(e); },
        };
        Ok(create_instruction(Ins::Dcr(register)))
    } else if str_eq(word, "JNZ") {
        let target = match next_jump_target(tokens, pos) {
            Ok(t) => t,
            Err(e) => { return Err(e); },
        };
        Ok(create_instruction(Ins::Jnz(target)))
    } else if str_eq(word, "CMP") {
        let register = match next_register(tokens, pos) {
            Ok(r) => r,
            Err(e) => { return Err(e); },
        };
        Ok(create_instruction(Ins::Cmp(register)))
    } else if str_eq(word, "JNC") {
        let target = match next_jump_target(tokens, pos) {
            Ok(t) => t,
            Err(e) => { return Err(e); },
        };
        Ok(create_instruction(Ins::Jnc(target)))
    } else if str_eq(word, "STA") {
        let address = match next_address(tokens, pos) {
            Ok(a) => a,
            Err(e) => { return Err(e); },
        };
        Ok(create_instruction(Ins::Sta(address)))
    } else if str_eq(word, "LHLD") {
        let address = match next_address(tokens, pos) {
            Ok(a) => a,
            Err(e) => { return Err(e); },
        };
        Ok(create_instruction(Ins::Lhld(address)))
    } else if str_eq(word, "SHLD") {
        let address = match next_address(tokens, pos) {
            Ok(a) => a,
            Err(e) => { return Err(e); },
        };
        Ok(create_instruction(Ins::Shld(address)))
    } else if str_eq(word, "XCHG") {
        Ok(create_instruction(Ins::Xchg))
    } else if str_eq(word, "ADC") {
        let register = match next_register(tokens, pos) {
            Ok(r) => r,
            Err(e) => { return Err(e); },
        };
        Ok(create_instruction(Ins::Adc(register)))
    } else if str_eq(word, "LDA") {
        let address = match next_address(tokens, pos) {
            Ok(a) => a,
            Err(e) => { return Err(e); },
        };
        Ok(create_instruction(Ins::Lda(address)))
    } else if str_eq(word, "ANI") {
        let value = match next_number(tokens, pos) {
            Ok(v) => v,
            Err(e) => { return Err(e); },
        };
        Ok(create_instruction(Ins::Ani(value)))
    } else if str_eq(word, "HLT") {
        Ok(create_instruction(Ins::Hlt))
    } else {
        Err(ParseError::UnimplementedMnemonic(String::from_str(word)))
    }
}

/// Parses a whole token stream into instruction records, attaching each label
/// declaration to the mnemonic that follows it. Fails with the first operand
/// or mnemonic error; tokens of other kinds between instructions are skipped.
pub fn parse(tokens: Vec<Token>) -> (r: Result<Vec<Instruction>, ParseError>)
    ensures
        match r {
            Ok(instrs) => spec_parse(tokens.deep_view()) == Ok::<Seq<InstructionV>, ParseErrorV>(
                instrs.deep_view(),
            ),
            Err(e) => spec_parse(tokens.deep_view()) == Err::<Seq<InstructionV>, ParseErrorV>(e@),
        },
{
    let ghost toksv = tokens.deep_view();
    let n = tokens.len();
    let mut out: Vec<Instruction> = Vec::new();
    let mut pos: usize = 0;
    while pos < n
        invariant
            pos <= n,
            n == tokens@.len(),
            toksv == tokens.deep_view(),
            parse_combine(out.deep_view(), spec_parse_from(toksv, pos as int)) == spec_parse_from(
                toksv,
                0,
            ),
        decreases n - pos,
    {
        let ghost pre = out.deep_view();
        let t = &tokens[pos];
        match t {
            Token::Label(name) => {
                if pos + 1 >= n {
                    pos = n;
                } else {
                    let t2 = &tokens[pos + 1];
                    match t2 {
                        Token::Word(w) => {
                            let mut p2: usize = pos + 2;
                            match parse_instruction(w.as_str(), &tokens, &mut p2) {
                                Ok(instr) => {
                                    let labeled = Instruction {
                                        label: Some(name.clone()),
                                        ins: instr.ins,
                                    };
                                    proof {
                                        lemma_parse_ins_bounds(toksv, pos + 2, w@);
                                        lemma_parse_combine_cons(
                                            pre,
                                            labeled@,
                                            spec_parse_from(toksv, p2 as int),
                                        );
                                    }
                                    out.push(labeled);
                                    proof {
                                        assert(out.deep_view() =~= pre.push(
                                            out@[out@.len() - 1]@,
                                        ));
                                    }
                                    pos = p2;
                                },
                                Err(e) => {
                                    return Err(e);
                                },
                            }
                        },
                        _ => {
                            pos = pos + 2;
                        },
                    }
                }
            },
            Token::Word(w) => {
                let mut p2: usize = pos + 1;
                match parse_instruction(w.as_str(), &tokens, &mut p2) {
                    Ok(instr) => {
                        proof {
                            lemma_parse_ins_bounds(toksv, pos + 1, w@);
                            lemma_parse_combine_cons(
                                pre,
                                instr@,
                                spec_parse_from(toksv, p2 as int),
                            );
                        }
                        out.push(instr);
                        proof {
                            assert(out.deep_view() =~= pre.push(out@[out@.len() - 1]@));
                        }
                        pos = p2;
                    },
                    Err(e) => {
                        return Err(e);
                    },
                }
            },
            _ => {
                pos = pos + 1;
            },
        }
    }
    proof {
        assert(out.deep_view() + Seq::<InstructionV>::empty() =~= out.deep_view());
    }
    Ok(out)
}

} // verus!
