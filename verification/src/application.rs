//! The state an editor or display layer drives: the source text being
//! edited, the execution engine, and the bytes of the last successful
//! assembly. The display layer only needs to call `assemble`, `evaluate` and
//! the engine's read accessors; rendering and event handling live outside
//! this crate.

use vstd::prelude::*;

use crate::assembler::AssembleError;
use crate::cpu::{initial_cpu, spec_run_until, zero_mem, Cpu, CpuView};
use crate::memory::MEMORY_SIZE;
use crate::{assemble_source, spec_assemble_source, AssemblyError, AssemblyErrorV};

verus! {

/// The simulator state behind a user interface.
pub struct Application {
    pub source: String,
    pub cpu: Cpu,
    assembled_instructions: Vec<u8>,
}

/// The mathematical state of an `Application`.
pub ghost struct ApplicationV {
    pub source: Seq<char>,
    pub cpu: CpuView,
    pub assembled: Seq<u8>,
}

impl View for Application {
    type V = ApplicationV;

    closed spec fn view(&self) -> ApplicationV {
        ApplicationV {
            source: self.source@,
            cpu: self.cpu@,
            assembled: self.assembled_instructions@,
        }
    }
}

impl Application {
    /// A fresh application: empty source, an engine in the initial state,
    /// nothing assembled.
    pub fn new() -> (a: Application)
        ensures
            a@.source == Seq::<char>::empty(),
            a@.cpu == initial_cpu(),
            a@.assembled == Seq::<u8>::empty(),
    {
        Application { source: String::new(), cpu: Cpu::new(), assembled_instructions: Vec::new() }
    }

    /// How long, in seconds, a display layer may wait before repainting.
    pub fn repaint_max_timeout() -> (secs: u64)
        ensures
            secs == 1,
    {
        1
    }

    /// Clears the engine's memory and registers and forgets the assembled
    /// bytes; the source text and the engine's flags are kept.
    pub fn reset(&mut self)
        ensures
            final(self)@.source == old(self)@.source,
            final(self)@.cpu == (CpuView {
                mem: zero_mem(),
                flags: old(self)@.cpu.flags,
                ..initial_cpu()
            }),
            final(self)@.assembled == Seq::<u8>::empty(),
    {
        self.cpu.reset_memory();
        self.cpu.reset_registers();
        self.assembled_instructions = Vec::new();
    }

    /// The number of bytes the last successful assembly produced: the bound
    /// `evaluate` runs the engine to.
    pub fn assembled_count(&self) -> (n: usize)
        ensures
            n as int == self@.assembled.len(),
    {
        self.assembled_instructions.len()
    }

    /// The assembled byte at an offset, for display as an address and value
    /// table.
    pub fn assembled_byte(&self, offset: usize) -> (r: Option<u8>)
        ensures
            offset < self@.assembled.len() ==> r == Some(self@.assembled[offset as int]),
            offset >= self@.assembled.len() ==> r is None,
    {
        if offset < self.assembled_instructions.len() {
            Some(self.assembled_instructions[offset])
        } else {
            None
        }
    }

    /// Resets the engine, assembles the source text and loads the bytes at
    /// address 0. On failure the state stays reset and the error says what
    /// went wrong; no partial program is loaded.
    pub fn assemble(&mut self) -> (r: Result<usize, AssemblyError>)
        ensures
            final(self)@.source == old(self)@.source,
            match r {
                Ok(count) => {
                    &&& spec_assemble_source(old(self)@.source) matches Ok(bytes)
                    &&& final(self)@.assembled == (spec_assemble_source(
                        old(self)@.source,
                    )->Ok_0)
                    &&& count as int == final(self)@.assembled.len()
                    &&& final(self)@.cpu == (CpuView {
                        mem: final(self)@.assembled + zero_mem().skip(
                            final(self)@.assembled.len() as int,
                        ),
                        flags: old(self)@.cpu.flags,
                        ..initial_cpu()
                    })
                },
                Err(e) => {
                    &&& (spec_assemble_source(old(self)@.source) == Err::<
                        Seq<u8>,
                        AssemblyErrorV,
                    >(e@) || (spec_assemble_source(old(self)@.source) matches Ok(bytes)
                        && bytes.len() > MEMORY_SIZE && e@ == AssemblyErrorV::Assemble(
                        crate::assembler::AssembleErrorV::ProgramTooLarge,
                    )))
                    &&& final(self)@.assembled == Seq::<u8>::empty()
                    &&& final(self)@.cpu == (CpuView {
                        mem: zero_mem(),
                        flags: old(self)@.cpu.flags,
                        ..initial_cpu()
                    })
                },
            },
    {
        self.reset();
        let bytes = match assemble_source(self.source.as_str()) {
            Ok(b) => b,
            Err(e) => {
                return Err(e);
            },
        };
        match self.cpu.load_program(&bytes) {
            Ok(()) => {
                let count = bytes.len();
                self.assembled_instructions = bytes;
                proof {
                    assert(self@.cpu.mem =~= self@.assembled + zero_mem().skip(
                        self@.assembled.len() as int,
                    ));
                }
                Ok(count)
            },
            Err(_) => Err(AssemblyError::Assemble(AssembleError::ProgramTooLarge)),
        }
    }

    /// Steps the engine until the halt opcode runs, the program counter
    /// leaves the assembled code, or `max_steps` steps have been taken — the
    /// caller caps the run, so a program that never halts cannot hang it.
    pub fn evaluate(&mut self, max_steps: u64)
        ensures
            final(self)@.source == old(self)@.source,
            final(self)@.assembled == old(self)@.assembled,
            final(self)@.cpu == spec_run_until(
                old(self)@.cpu,
                old(self)@.assembled.len() as int,
                max_steps as nat,
            ),
    {
        let bound = self.assembled_instructions.len();
        self.cpu.run(bound, max_steps);
    }
}

} // verus!
