//! The fetch-decode-execute engine: an 8-bit register file, five flags, a
//! 16-bit program counter and the flat 64 KiB memory. One `eval` call fetches
//! the byte at the program counter, decodes it through a fixed opcode table,
//! applies the operation's effect, and advances the program counter by the
//! opcode's encoded width unless the opcode transfers control itself.
//!
//! One byte-order convention holds throughout. A register pair read as a
//! 16-bit value — for indirect addressing, pair increment and pair addition —
//! is big-endian: the first-named register holds the high byte. A 16-bit
//! operand in the instruction stream is little-endian: the low byte follows
//! the opcode. An immediate pair load therefore assigns the byte after the
//! opcode to the second-named register and the byte after that to the
//! first-named one, so `LXI H` followed by a direct `MOV A,M` reads the
//! memory cell the immediate named.

use vstd::prelude::*;

use crate::memory::{Memory, ExecutionFault, MEMORY_SIZE};

verus! {

/// The register operands an instruction can name. `RegM` denotes the memory
/// cell addressed indirectly through the H:L pair.
#[derive(PartialEq, Eq, Structural, Clone, Copy, Debug)]
pub enum Registers {
    RegB,
    RegC,
    RegD,
    RegE,
    RegH,
    RegL,
    RegA,
    RegM,
}

/// True of the one-character register names `A B C D E H L M`.
pub open spec fn is_register_char(c: char) -> bool {
    c == 'A' || c == 'B' || c == 'C' || c == 'D' || c == 'E' || c == 'H' || c == 'L' || c == 'M'
}

/// The register a one-character name denotes.
pub open spec fn spec_register_of_char(c: char) -> Registers {
    if c == 'A' {
        Registers::RegA
    } else if c == 'B' {
        Registers::RegB
    } else if c == 'C' {
        Registers::RegC
    } else if c == 'D' {
        Registers::RegD
    } else if c == 'E' {
        Registers::RegE
    } else if c == 'H' {
        Registers::RegH
    } else if c == 'L' {
        Registers::RegL
    } else {
        Registers::RegM
    }
}

impl Registers {
    /// Converts a one-letter register name. Callers must hand in one of the
    /// eight register names; there is no failure value to return.
    pub fn from(reg: &str) -> (r: Registers)
        requires
            reg@.len() == 1,
            is_register_char(reg@[0]),
        ensures
            r == spec_register_of_char(reg@[0]),
    {
        let c = reg.get_char(0);
        Registers::from_char(c)
    }

    /// Converts a register-name character.
    pub fn from_char(c: char) -> (r: Registers)
        requires
            is_register_char(c),
        ensures
            r == spec_register_of_char(c),
    {
        if c == 'A' {
            Registers::RegA
        } else if c == 'B' {
            Registers::RegB
        } else if c == 'C' {
            Registers::RegC
        } else if c == 'D' {
            Registers::RegD
        } else if c == 'E' {
            Registers::RegE
        } else if c == 'H' {
            Registers::RegH
        } else if c == 'L' {
            Registers::RegL
        } else {
            Registers::RegM
        }
    }
}

/// The five condition flags.
#[derive(PartialEq, Eq, Structural, Clone, Copy, Debug)]
pub struct FlagRegisters {
    pub sign: bool,
    pub zero: bool,
    pub auxiliary_carry: bool,
    pub parity: bool,
    pub carry: bool,
}

impl FlagRegisters {
    /// All flags cleared.
    pub fn new() -> (f: FlagRegisters)
        ensures
            f == (FlagRegisters {
                sign: false,
                zero: false,
                auxiliary_carry: false,
                parity: false,
                carry: false,
            }),
    {
        FlagRegisters { sign: false, zero: false, auxiliary_carry: false, parity: false, carry: false }
    }
}

/// The mathematical state of the engine: registers, flags, program counter,
/// stack pointer and the memory contents as a sequence of bytes.
pub ghost struct CpuView {
    pub pc: u16,
    pub sp: u16,
    pub a: u8,
    pub b: u8,
    pub c: u8,
    pub d: u8,
    pub e: u8,
    pub h: u8,
    pub l: u8,
    pub flags: FlagRegisters,
    pub mem: Seq<u8>,
}

/// Two register bytes read as one 16-bit value, the first-named register
/// holding the high byte.
pub open spec fn pair_val(high: u8, low: u8) -> u16 {
    (high * 256 + low) as u16
}

/// Low byte of a 16-bit value.
pub open spec fn lo_byte(v: u16) -> u8 {
    (v % 256) as u8
}

/// High byte of a 16-bit value.
pub open spec fn hi_byte(v: u16) -> u8 {
    (v / 256) as u8
}

/// A nonnegative count reduced modulo the address-space size.
pub open spec fn wrap16(v: int) -> u16 {
    (v % 0x10000) as u16
}

impl CpuView {
    /// The H:L pair read as a memory address.
    pub open spec fn hl(self) -> u16 {
        pair_val(self.h, self.l)
    }

    /// The value an instruction operand names: a register byte, or for `RegM`
    /// the memory byte addressed by the H:L pair.
    pub open spec fn reg(self, r: Registers) -> u8 {
        match r {
            Registers::RegB => self.b,
            Registers::RegC => self.c,
            Registers::RegD => self.d,
            Registers::RegE => self.e,
            Registers::RegH => self.h,
            Registers::RegL => self.l,
            Registers::RegA => self.a,
            Registers::RegM => self.mem[self.hl() as int],
        }
    }

    /// The state after storing to an instruction operand: a register byte, or
    /// for `RegM` the memory byte addressed by the H:L pair.
    pub open spec fn with_reg(self, r: Registers, v: u8) -> CpuView {
        match r {
            Registers::RegB => CpuView { b: v, ..self },
            Registers::RegC => CpuView { c: v, ..self },
            Registers::RegD => CpuView { d: v, ..self },
            Registers::RegE => CpuView { e: v, ..self },
            Registers::RegH => CpuView { h: v, ..self },
            Registers::RegL => CpuView { l: v, ..self },
            Registers::RegA => CpuView { a: v, ..self },
            Registers::RegM => CpuView { mem: self.mem.update(self.hl() as int, v), ..self },
        }
    }

    /// The byte after the opcode in the instruction stream.
    pub open spec fn imm8(self) -> u8 {
        self.mem[wrap16(self.pc + 1) as int]
    }

    /// The 16-bit operand after the opcode, stored little-endian: the low byte
    /// directly after the opcode, the high byte after it.
    pub open spec fn imm16(self) -> u16 {
        pair_val(self.mem[wrap16(self.pc + 2) as int], self.mem[wrap16(self.pc + 1) as int])
    }

    /// Memory length a well-formed state has; the engine's data type
    /// guarantees it.
    pub open spec fn mem_sized(self) -> bool {
        self.mem.len() == MEMORY_SIZE
    }
}

/// The memory contents of a freshly reset engine: all zero.
pub open spec fn zero_mem() -> Seq<u8> {
    Seq::new(MEMORY_SIZE as nat, |i: int| 0u8)
}

/// The execution engine.
#[derive(Debug)]
pub struct Cpu {
    pub pc: u16,
    pub sp: u16,
    pub accumulator: u8,
    pub b: u8,
    pub c: u8,
    pub d: u8,
    pub e: u8,
    pub h: u8,
    pub l: u8,
    pub memory: Memory,
    pub flags: FlagRegisters,
}

impl View for Cpu {
    type V = CpuView;

    open spec fn view(&self) -> CpuView {
        CpuView {
            pc: self.pc,
            sp: self.sp,
            a: self.accumulator,
            b: self.b,
            c: self.c,
            d: self.d,
            e: self.e,
            h: self.h,
            l: self.l,
            flags: self.flags,
            mem: self.memory@,
        }
    }
}

/// The initial state: program counter 0, registers and flags cleared, memory
/// zero-filled.
pub open spec fn initial_cpu() -> CpuView {
    CpuView {
        pc: 0,
        sp: 0,
        a: 0,
        b: 0,
        c: 0,
        d: 0,
        e: 0,
        h: 0,
        l: 0,
        flags: FlagRegisters {
            sign: false,
            zero: false,
            auxiliary_carry: false,
            parity: false,
            carry: false,
        },
        mem: zero_mem(),
    }
}

impl Cpu {
    /// A fresh engine in the initial state.
    pub fn new() -> (cpu: Cpu)
        ensures
            cpu@ == initial_cpu(),
    {
        let cpu = Cpu {
            pc: 0,
            sp: 0,
            accumulator: 0,
            b: 0,
            c: 0,
            d: 0,
            e: 0,
            h: 0,
            l: 0,
            memory: Memory::new(),
            flags: FlagRegisters::new(),
        };
        proof {
            assert(cpu@.mem =~= zero_mem());
        }
        cpu
    }

    /// Sets the program counter back to 0; everything else is unchanged.
    pub fn reset_pc(&mut self)
        ensures
            final(self)@ == (CpuView { pc: 0, ..old(self)@ }),
    {
        self.pc = 0;
    }

    /// Clears all flags; everything else is unchanged.
    pub fn reset_flags(&mut self)
        ensures
            final(self)@ == (CpuView { flags: initial_cpu().flags, ..old(self)@ }),
    {
        self.flags = FlagRegisters::new();
    }

    /// Clears the registers, the program counter and the stack pointer; flags
    /// and memory are unchanged.
    pub fn reset_registers(&mut self)
        ensures
            final(self)@ == (CpuView {
                flags: old(self)@.flags,
                mem: old(self)@.mem,
                ..initial_cpu()
            }),
    {
        self.pc = 0;
        self.sp = 0;
        self.accumulator = 0;
        self.b = 0;
        self.c = 0;
        self.d = 0;
        self.e = 0;
        self.h = 0;
        self.l = 0;
    }

    /// Zero-fills the memory; registers and flags are unchanged.
    pub fn reset_memory(&mut self)
        ensures
            final(self)@ == (CpuView { mem: zero_mem(), ..old(self)@ }),
    {
        self.memory = Memory::new();
        proof {
            assert(self@.mem =~= zero_mem());
        }
    }

    /// Bounds-checked memory write for callers that index by `usize`;
    /// succeeds exactly when the index is below `MEMORY_SIZE`.
    pub fn write_memory(&mut self, address: usize, value: u8) -> (r: Result<(), ExecutionFault>)
        ensures
            address < MEMORY_SIZE ==> final(self)@ == (CpuView {
                mem: old(self)@.mem.update(address as int, value),
                ..old(self)@
            }) && r == Ok::<(), ExecutionFault>(()),
            address >= MEMORY_SIZE ==> final(self)@ == old(self)@ && r == Err::<
                (),
                ExecutionFault,
            >((ExecutionFault { address })),
    {
        self.memory.write(address, value)
    }

    /// Bounds-checked memory read for callers that index by `usize`;
    /// succeeds exactly when the index is below `MEMORY_SIZE`.
    pub fn read_memory(&self, address: usize) -> (r: Result<u8, ExecutionFault>)
        ensures
            address < MEMORY_SIZE ==> r == Ok::<u8, ExecutionFault>(self@.mem[address as int]),
            address >= MEMORY_SIZE ==> r == Err::<u8, ExecutionFault>(
                (ExecutionFault { address }),
            ),
    {
        self.memory.read(address)
    }

    /// Loads an assembled byte sequence at address 0; the rest of memory is
    /// unchanged. Fails, changing nothing, when the sequence does not fit.
    pub fn load_program(&mut self, bytes: &Vec<u8>) -> (r: Result<(), ExecutionFault>)
        ensures
            bytes@.len() <= MEMORY_SIZE ==> final(self)@ == (CpuView {
                mem: bytes@ + old(self)@.mem.skip(bytes@.len() as int),
                ..old(self)@
            }) && r == Ok::<(), ExecutionFault>(()),
            bytes@.len() > MEMORY_SIZE ==> final(self)@ == old(self)@ && r == Err::<
                (),
                ExecutionFault,
            >((ExecutionFault { address: MEMORY_SIZE })),
    {
        self.memory.load(bytes)
    }

    /// The byte at the program counter, the opcode `eval` would dispatch on.
    pub fn fetch(&self) -> (b: u8)
        ensures
            b == self@.mem[self@.pc as int],
    {
        self.memory.read_byte(self.pc)
    }
}

/// The operation a fetched opcode byte denotes. Immediate operands live in the
/// instruction stream, so they are not part of the descriptor; register
/// operands are. `Nop` stands for every byte outside the dispatch table: such
/// a byte only advances the program counter.
#[derive(PartialEq, Eq, Structural, Clone, Copy, Debug)]
pub enum Op {
    Mov(Registers, Registers),
    Mvi(Registers),
    Lxi(Registers),
    Lda,
    Sta,
    Lhld,
    Shld,
    Ldax(Registers),
    Stax(Registers),
    Xchg,
    Add(Registers),
    Adc(Registers),
    Sub(Registers),
    Ana(Registers),
    Ora(Registers),
    Cmp(Registers),
    Adi,
    Ani,
    Cma,
    Inr(Registers),
    Dcr(Registers),
    Inx(Registers),
    Dad(Registers),
    Jmp,
    Jnz,
    Jnc,
    Hlt,
    Nop,
}

/// The register encoded by a 3-bit operand field of an opcode.
pub open spec fn spec_reg_of_code(code: int) -> Registers {
    if code == 0 {
        Registers::RegB
    } else if code == 1 {
        Registers::RegC
    } else if code == 2 {
        Registers::RegD
    } else if code == 3 {
        Registers::RegE
    } else if code == 4 {
        Registers::RegH
    } else if code == 5 {
        Registers::RegL
    } else if code == 6 {
        Registers::RegM
    } else {
        Registers::RegA
    }
}

/// The 3-bit operand field encoding a register.
pub open spec fn spec_reg_code(r: Registers) -> int {
    match r {
        Registers::RegB => 0,
        Registers::RegC => 1,
        Registers::RegD => 2,
        Registers::RegE => 3,
        Registers::RegH => 4,
        Registers::RegL => 5,
        Registers::RegM => 6,
        Registers::RegA => 7,
    }
}

/// The register encoded by a 3-bit operand field.
pub fn reg_of_code(code: u8) -> (r: Registers)
    requires
        code < 8,
    ensures
        r == spec_reg_of_code(code as int),
{
    if code == 0 {
        Registers::RegB
    } else if code == 1 {
        Registers::RegC
    } else if code == 2 {
        Registers::RegD
    } else if code == 3 {
        Registers::RegE
    } else if code == 4 {
        Registers::RegH
    } else if code == 5 {
        Registers::RegL
    } else if code == 6 {
        Registers::RegM
    } else {
        Registers::RegA
    }
}

/// The 3-bit operand field encoding a register.
pub fn reg_code(r: Registers) -> (c: u8)
    ensures
        c as int == spec_reg_code(r),
        c < 8,
{
    match r {
        Registers::RegB => 0,
        Registers::RegC => 1,
        Registers::RegD => 2,
        Registers::RegE => 3,
        Registers::RegH => 4,
        Registers::RegL => 5,
        Registers::RegM => 6,
        Registers::RegA => 7,
    }
}

/// The fixed dispatch table: which operation each opcode byte denotes.
///
/// The move block `0x40..=0x7F` encodes destination and source in the two
/// 3-bit fields (`0x76`, the slot a move from memory to memory would take, is
/// the halt opcode); the arithmetic, logic and compare blocks encode their
/// register operand in the low field. The remaining supported opcodes are
/// listed singly. `0x36`, `0x34` and `0x35` (move-immediate, increment and
/// decrement on the indirect memory operand) are outside the modeled subset
/// and fall to `Nop`, as does every other unlisted byte.
pub open spec fn spec_decode(op: u8) -> Op {
    if op == 0x76 {
        Op::Hlt
    } else if 0x40 <= op && op < 0x80 {
        Op::Mov(spec_reg_of_code((op - 0x40) / 8), spec_reg_of_code(((op - 0x40) % 8) as int))
    } else if 0x80 <= op && op < 0x88 {
        Op::Add(spec_reg_of_code((op - 0x80) as int))
    } else if 0x88 <= op && op < 0x90 {
        Op::Adc(spec_reg_of_code((op - 0x88) as int))
    } else if 0x90 <= op && op < 0x98 {
        Op::Sub(spec_reg_of_code((op - 0x90) as int))
    } else if 0xA0 <= op && op < 0xA8 {
        Op::Ana(spec_reg_of_code((op - 0xA0) as int))
    } else if 0xB0 <= op && op < 0xB8 {
        Op::Ora(spec_reg_of_code((op - 0xB0) as int))
    } else if 0xB8 <= op && op < 0xC0 {
        Op::Cmp(spec_reg_of_code((op - 0xB8) as int))
    } else if op == 0x06 || op == 0x0E || op == 0x16 || op == 0x1E || op == 0x26 || op == 0x2E
        || op == 0x3E {
        Op::Mvi(spec_reg_of_code((op / 8) as int))
    } else if op == 0x04 || op == 0x0C || op == 0x14 || op == 0x1C || op == 0x24 || op == 0x2C
        || op == 0x3C {
        Op::Inr(spec_reg_of_code((op / 8) as int))
    } else if op == 0x05 || op == 0x0D || op == 0x15 || op == 0x1D || op == 0x25 || op == 0x2D
        || op == 0x3D {
        Op::Dcr(spec_reg_of_code((op / 8) as int))
    } else if op == 0x01 {
        Op::Lxi(Registers::RegB)
    } else if op == 0x11 {
        Op::Lxi(Registers::RegD)
    } else if op == 0x21 {
        Op::Lxi(Registers::RegH)
    } else if op == 0x03 {
        Op::Inx(Registers::RegB)
    } else if op == 0x13 {
        Op::Inx(Registers::RegD)
    } else if op == 0x23 {
        Op::Inx(Registers::RegH)
    } else if op == 0x09 {
        Op::Dad(Registers::RegB)
    } else if op == 0x19 {
        Op::Dad(Registers::RegD)
    } else if op == 0x29 {
        Op::Dad(Registers::RegH)
    } else if op == 0x02 {
        Op::Stax(Registers::RegB)
    } else if op == 0x12 {
        Op::Stax(Registers::RegD)
    } else if op == 0x0A {
        Op::Ldax(Registers::RegB)
    } else if op == 0x1A {
        Op::Ldax(Registers::RegD)
    } else if op == 0x3A {
        Op::Lda
    } else if op == 0x32 {
        Op::Sta
    } else if op == 0x2A {
        Op::Lhld
    } else if op == 0x22 {
        Op::Shld
    } else if op == 0xEB {
        Op::Xchg
    } else if op == 0xC6 {
        Op::Adi
    } else if op == 0xE6 {
        Op::Ani
    } else if op == 0x2F {
        Op::Cma
    } else if op == 0xC3 {
        Op::Jmp
    } else if op == 0xC2 {
        Op::Jnz
    } else if op == 0xD2 {
        Op::Jnc
    } else {
        Op::Nop
    }
}

/// Decodes an opcode byte through the fixed dispatch table.
pub fn decode(op: u8) -> (r: Op)
    ensures
        r == spec_decode(op),
{
    if op == 0x76 {
        Op::Hlt
    } else if 0x40 <= op && op < 0x80 {
        Op::Mov(reg_of_code((op - 0x40) / 8), reg_of_code((op - 0x40) % 8))
    } else if 0x80 <= op && op < 0x88 {
        Op::Add(reg_of_code(op - 0x80))
    } else if 0x88 <= op && op < 0x90 {
        Op::Adc(reg_of_code(op - 0x88))
    } else if 0x90 <= op && op < 0x98 {
        Op::Sub(reg_of_code(op - 0x90))
    } else if 0xA0 <= op && op < 0xA8 {
        Op::Ana(reg_of_code(op - 0xA0))
    } else if 0xB0 <= op && op < 0xB8 {
        Op::Ora(reg_of_code(op - 0xB0))
    } else if 0xB8 <= op && op < 0xC0 {
        Op::Cmp(reg_of_code(op - 0xB8))
    } else if op == 0x06 || op == 0x0E || op == 0x16 || op == 0x1E || op == 0x26 || op == 0x2E
        || op == 0x3E {
        Op::Mvi(reg_of_code(op / 8))
    } else if op == 0x04 || op == 0x0C || op == 0x14 || op == 0x1C || op == 0x24 || op == 0x2C
        || op == 0x3C {
        Op::Inr(reg_of_code(op / 8))
    } else if op == 0x05 || op == 0x0D || op == 0x15 || op == 0x1D || op == 0x25 || op == 0x2D
        || op == 0x3D {
        Op::Dcr(reg_of_code(op / 8))
    } else if op == 0x01 {
        Op::Lxi(Registers::RegB)
    } else if op == 0x11 {
        Op::Lxi(Registers::RegD)
    } else if op == 0x21 {
        Op::Lxi(Registers::RegH)
    } else if op == 0x03 {
        Op::Inx(Registers::RegB)
    } else if op == 0x13 {
        Op::Inx(Registers::RegD)
    } else if op == 0x23 {
        Op::Inx(Registers::RegH)
    } else if op == 0x09 {
        Op::Dad(Registers::RegB)
    } else if op == 0x19 {
        Op::Dad(Registers::RegD)
    } else if op == 0x29 {
        Op::Dad(Registers::RegH)
    } else if op == 0x02 {
        Op::Stax(Registers::RegB)
    } else if op == 0x12 {
        Op::Stax(Registers::RegD)
    } else if op == 0x0A {
        Op::Ldax(Registers::RegB)
    } else if op == 0x1A {
        Op::Ldax(Registers::RegD)
    } else if op == 0x3A {
        Op::Lda
    } else if op == 0x32 {
        Op::Sta
    } else if op == 0x2A {
        Op::Lhld
    } else if op == 0x22 {
        Op::Shld
    } else if op == 0xEB {
        Op::Xchg
    } else if op == 0xC6 {
        Op::Adi
    } else if op == 0xE6 {
        Op::Ani
    } else if op == 0x2F {
        Op::Cma
    } else if op == 0xC3 {
        Op::Jmp
    } else if op == 0xC2 {
        Op::Jnz
    } else if op == 0xD2 {
        Op::Jnc
    } else {
        Op::Nop
    }
}

/// The encoded width of an operation: opcode alone, opcode plus an 8-bit
/// immediate, or opcode plus a 16-bit operand.
pub open spec fn op_width(o: Op) -> u16 {
    match o {
        Op::Mvi(_) => 2,
        Op::Adi => 2,
        Op::Ani => 2,
        Op::Lxi(_) => 3,
        Op::Lda => 3,
        Op::Sta => 3,
        Op::Lhld => 3,
        Op::Shld => 3,
        Op::Jmp => 3,
        Op::Jnz => 3,
        Op::Jnc => 3,
        _ => 1,
    }
}

/// Whether an operation transfers control: it sets the program counter itself
/// instead of taking the uniform width-based advance.
pub open spec fn is_control(o: Op) -> bool {
    o == Op::Jmp || o == Op::Jnz || o == Op::Jnc || o == Op::Hlt
}

/// Accumulator addition: modulo-256 wraparound, the carry flag records
/// unsigned overflow. `carry_in` is 1 for add-with-carry when the flag is set.
pub open spec fn add_result(s: CpuView, v: u8, carry_in: u8) -> CpuView {
    let sum = s.a + v + carry_in;
    CpuView {
        a: (sum % 256) as u8,
        flags: FlagRegisters { carry: sum > 255, ..s.flags },
        ..s
    }
}

/// Accumulator subtraction: modulo-256 wraparound, the carry flag records the
/// borrow.
pub open spec fn sub_result(s: CpuView, v: u8) -> CpuView {
    CpuView {
        a: ((s.a + 256 - v) % 256) as u8,
        flags: FlagRegisters { carry: v > s.a, ..s.flags },
        ..s
    }
}

/// Compare: zero when the operand equals the accumulator, sign from the high
/// bit of the wraparound difference, carry when the operand is greater. The
/// accumulator is unchanged.
pub open spec fn cmp_result(s: CpuView, v: u8) -> CpuView {
    CpuView {
        flags: FlagRegisters {
            zero: s.a == v,
            sign: (s.a + 256 - v) % 256 >= 128,
            carry: v > s.a,
            ..s.flags
        },
        ..s
    }
}

/// Increment or decrement of a single register, wrapping modulo 256. On the
/// general registers B through L the zero flag records whether the result is
/// zero; on the accumulator the flags are untouched.
pub open spec fn inc_dec_result(s: CpuView, r: Registers, v: u8) -> CpuView {
    let s2 = s.with_reg(r, v);
    if r == Registers::RegA {
        s2
    } else {
        CpuView { flags: FlagRegisters { zero: v == 0, ..s.flags }, ..s2 }
    }
}

/// Register-pair increment, wrapping modulo 65536; no flags are affected.
pub open spec fn inx_result(s: CpuView, rp: Registers) -> CpuView {
    match rp {
        Registers::RegB => {
            let nv = wrap16(pair_val(s.b, s.c) + 1);
            CpuView { b: hi_byte(nv), c: lo_byte(nv), ..s }
        },
        Registers::RegD => {
            let nv = wrap16(pair_val(s.d, s.e) + 1);
            CpuView { d: hi_byte(nv), e: lo_byte(nv), ..s }
        },
        _ => {
            let nv = wrap16(pair_val(s.h, s.l) + 1);
            CpuView { h: hi_byte(nv), l: lo_byte(nv), ..s }
        },
    }
}

/// Double-register add: the named pair is added into H:L, wrapping modulo
/// 65536; the carry flag records unsigned 16-bit overflow.
pub open spec fn dad_result(s: CpuView, rp: Registers) -> CpuView {
    let operand: u16 = match rp {
        Registers::RegB => pair_val(s.b, s.c),
        Registers::RegD => pair_val(s.d, s.e),
        _ => pair_val(s.h, s.l),
    };
    let sum = s.hl() + operand;
    CpuView {
        h: hi_byte(wrap16(sum)),
        l: lo_byte(wrap16(sum)),
        flags: FlagRegisters { carry: sum > 0xFFFF, ..s.flags },
        ..s
    }
}

/// The effect of a non-control operation on registers, flags and memory; the
/// program counter is advanced separately, by the operation's width.
pub open spec fn spec_apply(o: Op, s: CpuView) -> CpuView {
    match o {
        Op::Mov(d, src) => s.with_reg(d, s.reg(src)),
        Op::Mvi(r) => s.with_reg(r, s.imm8()),
        Op::Lxi(rp) => {
            let lo = s.mem[wrap16(s.pc + 1) as int];
            let hi = s.mem[wrap16(s.pc + 2) as int];
            match rp {
                Registers::RegB => CpuView { b: hi, c: lo, ..s },
                Registers::RegD => CpuView { d: hi, e: lo, ..s },
                _ => CpuView { h: hi, l: lo, ..s },
            }
        },
        Op::Lda => CpuView { a: s.mem[s.imm16() as int], ..s },
        Op::Sta => CpuView { mem: s.mem.update(s.imm16() as int, s.a), ..s },
        Op::Lhld => {
            let t = s.imm16();
            CpuView { l: s.mem[t as int], h: s.mem[wrap16(t + 1) as int], ..s }
        },
        Op::Shld => {
            let t = s.imm16();
            CpuView {
                mem: s.mem.update(t as int, s.l).update(wrap16(t + 1) as int, s.h),
                ..s
            }
        },
        Op::Ldax(rp) => {
            let addr = if rp == Registers::RegB {
                pair_val(s.b, s.c)
            } else {
                pair_val(s.d, s.e)
            };
            CpuView { a: s.mem[addr as int], ..s }
        },
        Op::Stax(rp) => {
            let addr = if rp == Registers::RegB {
                pair_val(s.b, s.c)
            } else {
                pair_val(s.d, s.e)
            };
            CpuView { mem: s.mem.update(addr as int, s.a), ..s }
        },
        Op::Xchg => CpuView { d: s.h, h: s.d, e: s.l, l: s.e, ..s },
        Op::Add(r) => add_result(s, s.reg(r), 0),
        Op::Adc(r) => add_result(s, s.reg(r), if s.flags.carry { 1 } else { 0 }),
        Op::Sub(r) => sub_result(s, s.reg(r)),
        Op::Ana(r) => CpuView { a: s.a & s.reg(r), ..s },
        Op::Ora(r) => CpuView { a: s.a | s.reg(r), ..s },
        Op::Cmp(r) => cmp_result(s, s.reg(r)),
        Op::Adi => add_result(s, s.imm8(), 0),
        Op::Ani => CpuView { a: s.a & s.imm8(), ..s },
        Op::Cma => CpuView { a: !s.a, ..s },
        Op::Inr(r) => inc_dec_result(s, r, ((s.reg(r) + 1) % 256) as u8),
        Op::Dcr(r) => inc_dec_result(s, r, ((s.reg(r) + 255) % 256) as u8),
        Op::Inx(rp) => inx_result(s, rp),
        Op::Dad(rp) => dad_result(s, rp),
        _ => s,
    }
}

/// One fetch-decode-execute step as a mathematical function of the state: the
/// state after the step, and the value `eval` reports — the new program
/// counter, or `None` when the halt opcode executed.
pub open spec fn spec_step(s: CpuView) -> (CpuView, Option<u16>) {
    let o = spec_decode(s.mem[s.pc as int]);
    if o == Op::Hlt {
        (s, None)
    } else if o == Op::Jmp {
        let s2 = CpuView { pc: s.imm16(), ..s };
        (s2, Some(s2.pc))
    } else if o == Op::Jnz {
        let s2 = CpuView {
            pc: if !s.flags.zero {
                s.imm16()
            } else {
                wrap16(s.pc + 3)
            },
            ..s
        };
        (s2, Some(s2.pc))
    } else if o == Op::Jnc {
        let s2 = CpuView {
            pc: if !s.flags.carry {
                s.imm16()
            } else {
                wrap16(s.pc + 3)
            },
            ..s
        };
        (s2, Some(s2.pc))
    } else {
        let s2 = CpuView { pc: wrap16(s.pc + op_width(o)), ..spec_apply(o, s) };
        (s2, Some(s2.pc))
    }
}

/// The state after stepping repeatedly: execution stops when the halt opcode
/// runs, when the new program counter reaches `bound` (the end of the loaded
/// code), or after `fuel` steps, whichever comes first.
pub open spec fn spec_run_until(s: CpuView, bound: int, fuel: nat) -> CpuView
    decreases fuel,
{
    if fuel == 0 {
        s
    } else {
        let stepped = spec_step(s);
        match stepped.1 {
            None => stepped.0,
            Some(pc) => if pc >= bound {
                stepped.0
            } else {
                spec_run_until(stepped.0, bound, (fuel - 1) as nat)
            },
        }
    }
}

/// Stepping is a mathematical function of the state: two engines in equal
/// states step to equal states and report equal outcomes, so executing the
/// same program against the same seed always yields the same result.
pub proof fn lemma_step_deterministic(s1: CpuView, s2: CpuView)
    requires
        s1 == s2,
    ensures
        spec_step(s1) == spec_step(s2),
{
}

/// A whole bounded run is a mathematical function of the initial state, the
/// code bound and the step budget: the final register, flag and memory state
/// of a run is determined by them alone.
pub proof fn lemma_run_deterministic(s1: CpuView, s2: CpuView, bound: int, fuel: nat)
    requires
        s1 == s2,
    ensures
        spec_run_until(s1, bound, fuel) == spec_run_until(s2, bound, fuel),
{
}

impl Cpu {
    /// Steps repeatedly until the halt opcode runs, the program counter
    /// reaches `bound`, or `max_steps` steps have been taken. The caller
    /// chooses the step budget, so a program that never halts cannot hang it.
    pub fn run(&mut self, bound: usize, max_steps: u64)
        ensures
            final(self)@ == spec_run_until(old(self)@, bound as int, max_steps as nat),
    {
        let mut steps: u64 = 0;
        let mut done = false;
        while !done && steps < max_steps
            invariant
                steps <= max_steps,
                !done ==> spec_run_until(old(self)@, bound as int, max_steps as nat)
                    == spec_run_until(self@, bound as int, (max_steps - steps) as nat),
                done ==> spec_run_until(old(self)@, bound as int, max_steps as nat) == self@,
            decreases max_steps - steps,
        {
            let r = self.eval();
            steps += 1;
            match r {
                None => {
                    done = true;
                },
                Some(pc) => {
                    if pc as usize >= bound {
                        done = true;
                    }
                },
            }
        }
    }

    /// The H:L pair read as a memory address.
    fn hl_addr(&self) -> (r: u16)
        ensures
            r == self@.hl(),
    {
        (self.h as u16) * 256 + (self.l as u16)
    }

    /// The value of an instruction operand: a register byte, or for `RegM` the
    /// memory byte addressed by the H:L pair.
    fn get_reg(&self, r: Registers) -> (v: u8)
        ensures
            v == self@.reg(r),
    {
        match r {
            Registers::RegB => self.b,
            Registers::RegC => self.c,
            Registers::RegD => self.d,
            Registers::RegE => self.e,
            Registers::RegH => self.h,
            Registers::RegL => self.l,
            Registers::RegA => self.accumulator,
            Registers::RegM => {
                let addr = self.hl_addr();
                self.memory.read_byte(addr)
            },
        }
    }

    /// Stores to an instruction operand: a register byte, or for `RegM` the
    /// memory byte addressed by the H:L pair.
    fn set_reg(&mut self, r: Registers, v: u8)
        ensures
            final(self)@ == old(self)@.with_reg(r, v),
    {
        match r {
            Registers::RegB => self.b = v,
            Registers::RegC => self.c = v,
            Registers::RegD => self.d = v,
            Registers::RegE => self.e = v,
            Registers::RegH => self.h = v,
            Registers::RegL => self.l = v,
            Registers::RegA => self.accumulator = v,
            Registers::RegM => {
                let addr = self.hl_addr();
                self.memory.write_byte(addr, v);
            },
        }
    }

    /// The program counter moved forward, wrapping at the end of the address
    /// space.
    fn advance(&mut self, width: u16)
        ensures
            final(self)@ == (CpuView { pc: wrap16(old(self)@.pc + width), ..old(self)@ }),
    {
        self.pc = ((self.pc as u32 + width as u32) % 0x10000) as u16;
    }

    /// The byte after the opcode.
    fn imm8_read(&self) -> (v: u8)
        ensures
            v == self@.imm8(),
    {
        let addr = ((self.pc as u32 + 1) % 0x10000) as u16;
        self.memory.read_byte(addr)
    }

    /// The 16-bit operand after the opcode, stored low byte first.
    fn imm16_read(&self) -> (v: u16)
        ensures
            v == self@.imm16(),
    {
        let lo_addr = ((self.pc as u32 + 1) % 0x10000) as u16;
        let hi_addr = ((self.pc as u32 + 2) % 0x10000) as u16;
        let lo = self.memory.read_byte(lo_addr);
        let hi = self.memory.read_byte(hi_addr);
        (hi as u16) * 256 + (lo as u16)
    }

    /// One fetch-decode-execute step. Reads the opcode at the program counter,
    /// dispatches through the fixed table, applies the operation, and advances
    /// the program counter by the opcode's width unless the opcode transfers
    /// control. Returns the new program counter, or `None` when the halt
    /// opcode executed; a byte with no table entry is a no-op that still
    /// advances by one.
    pub fn eval(&mut self) -> (r: Option<u16>)
        ensures
            final(self)@ == spec_step(old(self)@).0,
            r == spec_step(old(self)@).1,
    {
        let op_byte = self.fetch();
        let op = decode(op_byte);
        match op {
            Op::Hlt => {
                return None;
            },
            Op::Jmp => {
                let t = self.imm16_read();
                self.pc = t;
            },
            Op::Jnz => {
                let t = self.imm16_read();
                if !self.flags.zero {
                    self.pc = t;
                } else {
                    self.advance(3);
                }
            },
            Op::Jnc => {
                let t = self.imm16_read();
                if !self.flags.carry {
                    self.pc = t;
                } else {
                    self.advance(3);
                }
            },
            _ => {
                self.step_apply(op);
            },
        }
        Some(self.pc)
    }

    /// Applies a non-control operation and takes the uniform width-based
    /// advance of the program counter.
    fn step_apply(&mut self, op: Op)
        requires
            !is_control(op),
        ensures
            final(self)@ == (CpuView {
                pc: wrap16(old(self)@.pc + op_width(op)),
                ..spec_apply(op, old(self)@)
            }),
    {
        match op {
            Op::Mov(_, _) | Op::Mvi(_) | Op::Lxi(_) | Op::Lda | Op::Sta | Op::Lhld | Op::Shld
            | Op::Ldax(_) | Op::Stax(_) | Op::Xchg | Op::Nop => {
                self.step_transfer(op);
            },
            Op::Inr(_) | Op::Dcr(_) | Op::Inx(_) | Op::Dad(_) => {
                self.step_reg(op);
            },
            _ => {
                self.step_alu(op);
            },
        }
    }

    /// Applies a single-register increment or decrement or a register-pair
    /// operation and advances the program counter by the operation's width.
    #[verifier::rlimit(100)]
    fn step_reg(&mut self, op: Op)
        requires
            op is Inr || op is Dcr || op is Inx || op is Dad,
        ensures
            final(self)@ == (CpuView {
                pc: wrap16(old(self)@.pc + op_width(op)),
                ..spec_apply(op, old(self)@)
            }),
    {
        match op {
            Op::Inr(rr) => {
                let v = self.get_reg(rr);
                let nv = ((v as u16 + 1) % 256) as u8;
                self.set_reg(rr, nv);
                if !matches!(rr, Registers::RegA) {
                    self.flags.zero = nv == 0;
                }
                self.advance(1);
            },
            Op::Dcr(rr) => {
                let v = self.get_reg(rr);
                let nv = ((v as u16 + 255) % 256) as u8;
                self.set_reg(rr, nv);
                if !matches!(rr, Registers::RegA) {
                    self.flags.zero = nv == 0;
                }
                self.advance(1);
            },
            Op::Inx(rp) => {
                match rp {
                    Registers::RegB => {
                        let nv = (((self.b as u32) * 256 + (self.c as u32) + 1) % 0x10000) as u16;
                        self.b = (nv / 256) as u8;
                        self.c = (nv % 256) as u8;
                    },
                    Registers::RegD => {
                        let nv = (((self.d as u32) * 256 + (self.e as u32) + 1) % 0x10000) as u16;
                        self.d = (nv / 256) as u8;
                        self.e = (nv % 256) as u8;
                    },
                    _ => {
                        let nv = (((self.h as u32) * 256 + (self.l as u32) + 1) % 0x10000) as u16;
                        self.h = (nv / 256) as u8;
                        self.l = (nv % 256) as u8;
                    },
                }
                self.advance(1);
            },
            Op::Dad(rp) => {
                let operand: u32 = match rp {
                    Registers::RegB => (self.b as u32) * 256 + (self.c as u32),
                    Registers::RegD => (self.d as u32) * 256 + (self.e as u32),
                    _ => (self.h as u32) * 256 + (self.l as u32),
                };
                let sum: u32 = (self.h as u32) * 256 + (self.l as u32) + operand;
                let nv = (sum % 0x10000) as u16;
                self.h = (nv / 256) as u8;
                self.l = (nv % 256) as u8;
                self.flags.carry = sum > 0xFFFF;
                self.advance(1);
            },
            _ => {
                // excluded by the precondition
            },
        }
    }

    /// Whether an operation only moves bytes between registers, memory and
    /// the instruction stream, leaving the flags alone.
    pub open spec fn is_transfer_op(o: Op) -> bool {
        o is Mov || o is Mvi || o is Lxi || o is Lda || o is Sta || o is Lhld || o is Shld
            || o is Ldax || o is Stax || o is Xchg || o is Nop
    }

    /// Applies a data-transfer operation and advances the program counter by
    /// the operation's width.
    #[verifier::rlimit(100)]
    fn step_transfer(&mut self, op: Op)
        requires
            Self::is_transfer_op(op),
        ensures
            final(self)@ == (CpuView {
                pc: wrap16(old(self)@.pc + op_width(op)),
                ..spec_apply(op, old(self)@)
            }),
    {
        match op {
            Op::Mov(d, src) => {
                let v = self.get_reg(src);
                self.set_reg(d, v);
                self.advance(1);
            },
            Op::Mvi(rr) => {
                let v = self.imm8_read();
                self.set_reg(rr, v);
                self.advance(2);
            },
            Op::Lxi(rp) => {
                let lo = self.imm8_read();
                let hi_addr = ((self.pc as u32 + 2) % 0x10000) as u16;
                let hi = self.memory.read_byte(hi_addr);
                match rp {
                    Registers::RegB => {
                        self.b = hi;
                        self.c = lo;
                    },
                    Registers::RegD => {
                        self.d = hi;
                        self.e = lo;
                    },
                    _ => {
                        self.h = hi;
                        self.l = lo;
                    },
                }
                self.advance(3);
            },
            Op::Lda => {
                let t = self.imm16_read();
                self.accumulator = self.memory.read_byte(t);
                self.advance(3);
            },
            Op::Sta => {
                let t = self.imm16_read();
                self.memory.write_byte(t, self.accumulator);
                self.advance(3);
            },
            Op::Lhld => {
                let t = self.imm16_read();
                let t1 = ((t as u32 + 1) % 0x10000) as u16;
                self.l = self.memory.read_byte(t);
                self.h = self.memory.read_byte(t1);
                self.advance(3);
            },
            Op::Shld => {
                let t = self.imm16_read();
                let t1 = ((t as u32 + 1) % 0x10000) as u16;
                self.memory.write_byte(t, self.l);
                self.memory.write_byte(t1, self.h);
                self.advance(3);
            },
            Op::Ldax(rp) => {
                let addr = if matches!(rp, Registers::RegB) {
                    (self.b as u16) * 256 + (self.c as u16)
                } else {
                    (self.d as u16) * 256 + (self.e as u16)
                };
                self.accumulator = self.memory.read_byte(addr);
                self.advance(1);
            },
            Op::Stax(rp) => {
                let addr = if matches!(rp, Registers::RegB) {
                    (self.b as u16) * 256 + (self.c as u16)
                } else {
                    (self.d as u16) * 256 + (self.e as u16)
                };
                self.memory.write_byte(addr, self.accumulator);
                self.advance(1);
            },
            Op::Xchg => {
                let t = self.d;
                self.d = self.h;
                self.h = t;
                let t2 = self.e;
                self.e = self.l;
                self.l = t2;
                self.advance(1);
            },
            Op::Nop => {
                self.advance(1);
            },
            _ => {
                // excluded by the precondition
            },
        }
    }

    /// Applies an accumulator arithmetic, logic or compare operation and
    /// advances the program counter by the operation's width.
    #[verifier::rlimit(100)]
    fn step_alu(&mut self, op: Op)
        requires
            op is Add || op is Adc || op is Sub || op is Ana || op is Ora || op is Cmp
                || op is Adi || op is Ani || op is Cma,
        ensures
            final(self)@ == (CpuView {
                pc: wrap16(old(self)@.pc + op_width(op)),
                ..spec_apply(op, old(self)@)
            }),
    {
        match op {
            Op::Add(rr) => {
                let v = self.get_reg(rr);
                let sum: u16 = self.accumulator as u16 + v as u16;
                self.accumulator = (sum % 256) as u8;
                self.flags.carry = sum > 255;
                self.advance(1);
            },
            Op::Adc(rr) => {
                let v = self.get_reg(rr);
                let cin: u16 = if self.flags.carry {
                    1
                } else {
                    0
                };
                let sum: u16 = self.accumulator as u16 + v as u16 + cin;
                self.accumulator = (sum % 256) as u8;
                self.flags.carry = sum > 255;
                self.advance(1);
            },
            Op::Sub(rr) => {
                let v = self.get_reg(rr);
                let diff: u16 = (self.accumulator as u16 + 256) - v as u16;
                let borrow = v > self.accumulator;
                self.accumulator = (diff % 256) as u8;
                self.flags.carry = borrow;
                self.advance(1);
            },
            Op::Ana(rr) => {
                let v = self.get_reg(rr);
                self.accumulator = self.accumulator & v;
                self.advance(1);
            },
            Op::Ora(rr) => {
                let v = self.get_reg(rr);
                self.accumulator = self.accumulator | v;
                self.advance(1);
            },
            Op::Cmp(rr) => {
                let v = self.get_reg(rr);
                let diff: u16 = ((self.accumulator as u16 + 256) - v as u16) % 256;
                self.flags.zero = self.accumulator == v;
                self.flags.sign = diff >= 128;
                self.flags.carry = v > self.accumulator;
                self.advance(1);
            },
            Op::Adi => {
                let v = self.imm8_read();
                let sum: u16 = self.accumulator as u16 + v as u16;
                self.accumulator = (sum % 256) as u8;
                self.flags.carry = sum > 255;
                self.advance(2);
            },
            Op::Ani => {
                let v = self.imm8_read();
                self.accumulator = self.accumulator & v;
                self.advance(2);
            },
            Op::Cma => {
                self.accumulator = !self.accumulator;
                self.advance(1);
            },
            _ => {
                // excluded by the precondition
            },
        }
    }
}

} // verus!
