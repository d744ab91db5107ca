//! An educational 8-bit microprocessor simulator: assembly source text is
//! tokenized, parsed into instruction records, assembled into machine-code
//! bytes (with two-pass forward-label resolution), and executed by a
//! fetch-decode-execute engine over a flat 64 KiB memory.
//!
//! The pipeline is strict at assembly time — a lexical, parse or assembly
//! problem aborts the whole call with a structured error and no partial
//! output — and tolerant at run time, where an unknown opcode byte is a
//! no-op that still advances the program counter.

use vstd::prelude::*;

pub mod application;
pub mod assembler;
pub mod cpu;
pub mod memory;
pub mod parser;
pub mod syntax_highlighting;
pub mod token;

use crate::assembler::{assemble, spec_assemble, AssembleError, AssembleErrorV};
use crate::cpu::{initial_cpu, zero_mem, Cpu, CpuView};
use crate::memory::MEMORY_SIZE;
use crate::parser::{parse, spec_parse, ParseError, ParseErrorV};
use crate::token::{spec_tokenize, tokenize, LexError, LexErrorV};

verus! {

/// A failure of the whole assemble call: lexical, parse, or assembly. No
/// partial output is produced or loaded.
#[derive(Debug, PartialEq, Clone)]
pub enum AssemblyError {
    Lexical(LexError),
    Parse(ParseError),
    Assemble(AssembleError),
}

/// The mathematical value of an assembly-call failure.
pub ghost enum AssemblyErrorV {
    Lexical(LexErrorV),
    Parse(ParseErrorV),
    Assemble(AssembleErrorV),
}

impl View for AssemblyError {
    type V = AssemblyErrorV;

    open spec fn view(&self) -> AssemblyErrorV {
        match self {
            AssemblyError::Lexical(e) => AssemblyErrorV::Lexical(e@),
            AssemblyError::Parse(e) => AssemblyErrorV::Parse(e@),
            AssemblyError::Assemble(e) => AssemblyErrorV::Assemble(e@),
        }
    }
}

impl DeepView for AssemblyError {
    type V = AssemblyErrorV;

    open spec fn deep_view(&self) -> AssemblyErrorV {
        self.view()
    }
}

/// What assembling source text yields: the machine-code bytes, or the first
/// failure of the tokenizer, the parser or the assembler.
pub open spec fn spec_assemble_source(s: Seq<char>) -> Result<Seq<u8>, AssemblyErrorV> {
    match spec_tokenize(s) {
        Err(e) => Err(AssemblyErrorV::Lexical(e)),
        Ok(toks) => match spec_parse(toks) {
            Err(e) => Err(AssemblyErrorV::Parse(e)),
            Ok(instrs) => match spec_assemble(instrs) {
                Err(e) => Err(AssemblyErrorV::Assemble(e)),
                Ok(bytes) => Ok(bytes),
            },
        },
    }
}

/// Assembles source text into machine-code bytes: tokenizer, parser and
/// assembler in sequence. Any failure aborts the whole call with a structured
/// error; no partial output is produced.
pub fn assemble_source(source: &str) -> (r: Result<Vec<u8>, AssemblyError>)
    ensures
        match r {
            Ok(bytes) => spec_assemble_source(source@) == Ok::<Seq<u8>, AssemblyErrorV>(bytes@),
            Err(e) => spec_assemble_source(source@) == Err::<Seq<u8>, AssemblyErrorV>(e@),
        },
{
    let tokens = match tokenize(source) {
        Ok(t) => t,
        Err(e) => {
            return Err(AssemblyError::Lexical(e));
        },
    };
    let instructions = match parse(tokens) {
        Ok(i) => i,
        Err(e) => {
            return Err(AssemblyError::Parse(e));
        },
    };
    match assemble(&instructions) {
        Ok(bytes) => Ok(bytes),
        Err(e) => Err(AssemblyError::Assemble(e)),
    }
}

/// What assembling and loading source text yields: a fresh engine whose
/// memory holds the program at address 0, and the program's length. A
/// program too large for the address space is reported as oversized.
pub open spec fn spec_execute_code(s: Seq<char>) -> Result<(CpuView, int), AssemblyErrorV> {
    match spec_assemble_source(s) {
        Err(e) => Err(e),
        Ok(bytes) => if bytes.len() <= MEMORY_SIZE {
            Ok(
                (
                    CpuView { mem: bytes + zero_mem().skip(bytes.len() as int), ..initial_cpu() },
                    bytes.len() as int,
                ),
            )
        } else {
            Err(AssemblyErrorV::Assemble(AssembleErrorV::ProgramTooLarge))
        },
    }
}

/// Assembles source text and loads the bytes into a fresh engine at address
/// 0, handing back the engine and the number of bytes loaded, ready for the
/// caller's stepping loop.
pub fn execute_code(code: &str) -> (r: Result<(Cpu, usize), AssemblyError>)
    ensures
        match r {
            Ok(p) => spec_execute_code(code@) == Ok::<(CpuView, int), AssemblyErrorV>(
                (p.0@, p.1 as int),
            ),
            Err(e) => spec_execute_code(code@) == Err::<(CpuView, int), AssemblyErrorV>(e@),
        },
{
    let bytes = match assemble_source(code) {
        Ok(b) => b,
        Err(e) => {
            return Err(e);
        },
    };
    let mut cpu = Cpu::new();
    match cpu.load_program(&bytes) {
        Ok(()) => {
            let count = bytes.len();
            Ok((cpu, count))
        },
        Err(_) => Err(AssemblyError::Assemble(AssembleError::ProgramTooLarge)),
    }
}

} // verus!
