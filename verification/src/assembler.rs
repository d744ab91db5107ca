//! The two-pass assembler. A single forward pass walks the instruction
//! records in order: a label is recorded in the symbol table at the current
//! output length before its instruction is encoded; each instruction is
//! encoded through a fixed table keyed by mnemonic and operand pattern (one
//! byte for register operations, two for 8-bit immediates, three for 16-bit
//! addresses, all 16-bit operands little-endian); a jump whose label is not
//! yet in the table is emitted with a two-byte zero placeholder and a pending
//! fixup. A backpatch pass then overwrites every placeholder with the
//! little-endian resolved address.
//!
//! Nothing is silently dropped: declaring a label twice, an operand pattern
//! outside the encoding table, a label offset beyond the 16-bit range, and a
//! fixup whose label is never defined are all explicit errors that abort the
//! whole call.

use vstd::prelude::*;
use vstd::string::*;

use crate::cpu::{Registers, spec_reg_code, reg_code};
use crate::parser::{Ins, InsV, Instruction, InstructionV, JumpTarget, JumpTargetV};
use crate::token::str_eq;

verus! {

/// An assembly failure, each an explicit condition rather than silent
/// corruption: an operand pattern outside the encoding table, a label
/// declared twice, a jump to a label that is never declared, or a label
/// landing beyond the 16-bit address range.
#[derive(Debug, PartialEq, Clone)]
pub enum AssembleError {
    UnsupportedOperand(Ins),
    DuplicateLabel(String),
    UnresolvedLabel(String),
    ProgramTooLarge,
}

/// The mathematical value of an assembly failure.
pub ghost enum AssembleErrorV {
    UnsupportedOperand(InsV),
    DuplicateLabel(Seq<char>),
    UnresolvedLabel(Seq<char>),
    ProgramTooLarge,
}

impl View for AssembleError {
    type V = AssembleErrorV;

    open spec fn view(&self) -> AssembleErrorV {
        match self {
            AssembleError::UnsupportedOperand(i) => AssembleErrorV::UnsupportedOperand(i@),
            AssembleError::DuplicateLabel(l) => AssembleErrorV::DuplicateLabel(l@),
            AssembleError::UnresolvedLabel(l) => AssembleErrorV::UnresolvedLabel(l@),
            AssembleError::ProgramTooLarge => AssembleErrorV::ProgramTooLarge,
        }
    }
}

impl DeepView for AssembleError {
    type V = AssembleErrorV;

    open spec fn deep_view(&self) -> AssembleErrorV {
        self.view()
    }
}

/// The encoded width of an instruction: one byte for register operations, two
/// for 8-bit-immediate operations, three for 16-bit-address operations.
pub open spec fn ins_width(i: InsV) -> int {
    match i {
        InsV::Mvi(_, _) => 2,
        InsV::Adi(_) => 2,
        InsV::Ani(_) => 2,
        InsV::Lxi(_, _) => 3,
        InsV::Lda(_) => 3,
        InsV::Sta(_) => 3,
        InsV::Lhld(_) => 3,
        InsV::Shld(_) => 3,
        InsV::Jmp(_) => 3,
        InsV::Jnz(_) => 3,
        InsV::Jnc(_) => 3,
        _ => 1,
    }
}

/// The byte offset at which instruction `i` is encoded: the sum of the widths
/// of the instructions before it.
pub open spec fn spec_offset(instrs: Seq<InstructionV>, i: int) -> int
    decreases i,
{
    if i <= 0 {
        0
    } else {
        spec_offset(instrs, i - 1) + ins_width(instrs[i - 1].ins)
    }
}

/// Offsets never decrease along the program.
pub proof fn lemma_offset_monotone(instrs: Seq<InstructionV>, i: int, j: int)
    requires
        0 <= i <= j,
    ensures
        spec_offset(instrs, i) <= spec_offset(instrs, j),
        spec_offset(instrs, i) >= 0,
    decreases j,
{
    if j > i {
        lemma_offset_monotone(instrs, i, j - 1);
    } else {
        if i > 0 {
            lemma_offset_monotone(instrs, 0, i - 1);
        }
    }
}

/// Whether the operand pattern of an instruction has an entry in the encoding
/// table. The move from memory to memory, the immediate move into the
/// indirect operand, increments and decrements of the indirect operand, and
/// pair operations on registers that head no pair are outside the table.
pub open spec fn encodable(i: InsV) -> bool {
    match i {
        InsV::Mov(d, s) => !(d == Registers::RegM && s == Registers::RegM),
        InsV::Mvi(r, _) => r != Registers::RegM,
        InsV::Lxi(r, _) => r == Registers::RegB || r == Registers::RegD || r == Registers::RegH,
        InsV::Inx(r) => r == Registers::RegB || r == Registers::RegD || r == Registers::RegH,
        InsV::Inr(r) => r != Registers::RegM,
        InsV::Dcr(r) => r != Registers::RegM,
        _ => true,
    }
}

/// The offset recorded for `name` by the first `n` instructions: the offset
/// of the first instruction among them that declares the label.
pub open spec fn lookup_upto(instrs: Seq<InstructionV>, n: int, name: Seq<char>) -> Option<int>
    decreases n,
{
    if n <= 0 {
        None
    } else {
        match lookup_upto(instrs, n - 1, name) {
            Some(o) => Some(o),
            None => if instrs[n - 1].label == Some(name) {
                Some(spec_offset(instrs, n - 1))
            } else {
                None
            },
        }
    }
}

/// The symbol table of the whole program.
pub open spec fn lookup_label(instrs: Seq<InstructionV>, name: Seq<char>) -> Option<int> {
    lookup_upto(instrs, instrs.len() as int, name)
}

/// A label found among the first `k` instructions is found, at the same
/// offset, among any longer prefix.
pub proof fn lemma_lookup_monotone(instrs: Seq<InstructionV>, k: int, k2: int, name: Seq<char>)
    requires
        0 <= k <= k2,
        lookup_upto(instrs, k, name) is Some,
    ensures
        lookup_upto(instrs, k2, name) == lookup_upto(instrs, k, name),
    decreases k2,
{
    if k2 > k {
        lemma_lookup_monotone(instrs, k, k2 - 1, name);
    }
}

/// The first error of the forward pass over the first `n` instructions, in
/// the order the pass meets them: for each instruction, first a duplicate
/// label declaration, then a label offset beyond the 16-bit range, then an
/// operand pattern outside the encoding table.
pub open spec fn first_pass_error(instrs: Seq<InstructionV>, n: int) -> Option<AssembleErrorV>
    decreases n,
{
    if n <= 0 {
        None
    } else {
        match first_pass_error(instrs, n - 1) {
            Some(e) => Some(e),
            None => {
                let ins = instrs[n - 1];
                match ins.label {
                    Some(l) => if lookup_upto(instrs, n - 1, l) is Some {
                        Some(AssembleErrorV::DuplicateLabel(l))
                    } else if spec_offset(instrs, n - 1) > 0xFFFF {
                        Some(AssembleErrorV::ProgramTooLarge)
                    } else if !encodable(ins.ins) {
                        Some(AssembleErrorV::UnsupportedOperand(ins.ins))
                    } else {
                        None
                    },
                    None => if !encodable(ins.ins) {
                        Some(AssembleErrorV::UnsupportedOperand(ins.ins))
                    } else {
                        None
                    },
                }
            },
        }
    }
}

/// Once the forward pass has failed, every longer prefix reports the same
/// first error.
pub proof fn lemma_first_pass_error_monotone(instrs: Seq<InstructionV>, i: int, k: int)
    requires
        0 <= i <= k,
        first_pass_error(instrs, i) is Some,
    ensures
        first_pass_error(instrs, k) == first_pass_error(instrs, i),
    decreases k,
{
    if k > i {
        lemma_first_pass_error_monotone(instrs, i, k - 1);
    }
}

/// The label of a jump whose target is a label use, if the instruction is
/// such a jump.
pub open spec fn jump_label(i: InsV) -> Option<Seq<char>> {
    match i {
        InsV::Jmp(JumpTargetV::Label(l)) => Some(l),
        InsV::Jnz(JumpTargetV::Label(l)) => Some(l),
        InsV::Jnc(JumpTargetV::Label(l)) => Some(l),
        _ => None,
    }
}

/// The opcode byte of a jump.
pub open spec fn jump_opcode(i: InsV) -> u8 {
    match i {
        InsV::Jmp(_) => 0xC3,
        InsV::Jnz(_) => 0xC2,
        _ => 0xD2,
    }
}

/// The label of the first jump, in program order, whose label is declared
/// nowhere in the program.
pub open spec fn first_unresolved(instrs: Seq<InstructionV>, n: int) -> Option<Seq<char>>
    decreases n,
{
    if n <= 0 {
        None
    } else {
        match first_unresolved(instrs, n - 1) {
            Some(l) => Some(l),
            None => match jump_label(instrs[n - 1].ins) {
                Some(l) => if lookup_label(instrs, l) is None {
                    Some(l)
                } else {
                    None
                },
                None => None,
            },
        }
    }
}

/// The low byte of a 16-bit value.
pub open spec fn lo_of(v: int) -> u8 {
    (v % 256) as u8
}

/// The high byte of a 16-bit value.
pub open spec fn hi_of(v: int) -> u8 {
    ((v / 256) % 256) as u8
}

/// The address a jump target resolves to: a literal address, or the offset
/// the symbol table holds for the label.
pub open spec fn target_value(t: JumpTargetV, instrs: Seq<InstructionV>) -> int {
    match t {
        JumpTargetV::Address(a) => a as int,
        JumpTargetV::Label(l) => match lookup_label(instrs, l) {
            Some(o) => o,
            None => 0,
        },
    }
}

/// The encoding table: the bytes of one instruction, with every jump target
/// resolved through the whole program's symbol table. All 16-bit operands are
/// little-endian: low byte first.
pub open spec fn encode_ins(i: InsV, instrs: Seq<InstructionV>) -> Seq<u8> {
    match i {
        InsV::Mov(d, s) => seq![(0x40 + spec_reg_code(d) * 8 + spec_reg_code(s)) as u8],
        InsV::Mvi(r, v) => seq![(0x06 + spec_reg_code(r) * 8) as u8, v],
        InsV::Add(r) => seq![(0x80 + spec_reg_code(r)) as u8],
        InsV::Adc(r) => seq![(0x88 + spec_reg_code(r)) as u8],
        InsV::Sub(r) => seq![(0x90 + spec_reg_code(r)) as u8],
        InsV::Cmp(r) => seq![(0xB8 + spec_reg_code(r)) as u8],
        InsV::Adi(v) => seq![0xC6u8, v],
        InsV::Ani(v) => seq![0xE6u8, v],
        InsV::Lxi(r, a) => seq![
            if r == Registers::RegB {
                0x01u8
            } else if r == Registers::RegD {
                0x11u8
            } else {
                0x21u8
            },
            lo_of(a as int),
            hi_of(a as int),
        ],
        InsV::Lda(a) => seq![0x3Au8, lo_of(a as int), hi_of(a as int)],
        InsV::Sta(a) => seq![0x32u8, lo_of(a as int), hi_of(a as int)],
        InsV::Lhld(a) => seq![0x2Au8, lo_of(a as int), hi_of(a as int)],
        InsV::Shld(a) => seq![0x22u8, lo_of(a as int), hi_of(a as int)],
        InsV::Inx(r) => seq![
            if r == Registers::RegB {
                0x03u8
            } else if r == Registers::RegD {
                0x13u8
            } else {
                0x23u8
            },
        ],
        InsV::Inr(r) => seq![(0x04 + spec_reg_code(r) * 8) as u8],
        InsV::Dcr(r) => seq![(0x05 + spec_reg_code(r) * 8) as u8],
        InsV::Xchg => seq![0xEBu8],
        InsV::Hlt => seq![0x76u8],
        InsV::Jmp(t) => seq![
            0xC3u8,
            lo_of(target_value(t, instrs)),
            hi_of(target_value(t, instrs)),
        ],
        InsV::Jnz(t) => seq![
            0xC2u8,
            lo_of(target_value(t, instrs)),
            hi_of(target_value(t, instrs)),
        ],
        InsV::Jnc(t) => seq![
            0xD2u8,
            lo_of(target_value(t, instrs)),
            hi_of(target_value(t, instrs)),
        ],
    }
}

/// Each table entry is as wide as the instruction's declared width.
pub proof fn lemma_encode_ins_width(i: InsV, instrs: Seq<InstructionV>)
    ensures
        encode_ins(i, instrs).len() == ins_width(i),
{
}

/// The fully resolved encoding of the first `n` instructions, in order.
pub open spec fn encode_all(instrs: Seq<InstructionV>, n: int) -> Seq<u8>
    decreases n,
{
    if n <= 0 {
        Seq::empty()
    } else {
        encode_all(instrs, n - 1) + encode_ins(instrs[n - 1].ins, instrs)
    }
}

/// The encoding of a prefix is as long as the offset past it.
pub proof fn lemma_encode_all_len(instrs: Seq<InstructionV>, n: int)
    requires
        n >= 0,
    ensures
        encode_all(instrs, n).len() == spec_offset(instrs, n),
    decreases n,
{
    if n > 0 {
        lemma_encode_all_len(instrs, n - 1);
        lemma_encode_ins_width(instrs[n - 1].ins, instrs);
    }
}

/// What assembling a program yields: the concatenated encodings with every
/// label resolved, or the first error the two passes meet — first the forward
/// pass's duplicate-label, oversized-program and unsupported-operand errors
/// in scan order, then the backpatch pass's first never-declared jump label.
pub open spec fn spec_assemble(instrs: Seq<InstructionV>) -> Result<Seq<u8>, AssembleErrorV> {
    let n = instrs.len() as int;
    match first_pass_error(instrs, n) {
        Some(e) => Err(e),
        None => match first_unresolved(instrs, n) {
            Some(l) => Err(AssembleErrorV::UnresolvedLabel(l)),
            None => Ok(encode_all(instrs, n)),
        },
    }
}

/// The encoding of one instruction as the forward pass emits it, with only
/// the first `k` instructions' labels in the table: a jump to a label not yet
/// recorded is emitted with a two-byte zero placeholder.
pub open spec fn enc_partial(i: InsV, instrs: Seq<InstructionV>, k: int) -> Seq<u8> {
    match jump_label(i) {
        Some(l) => match lookup_upto(instrs, k, l) {
            Some(o) => seq![jump_opcode(i), lo_of(o), hi_of(o)],
            None => seq![jump_opcode(i), 0u8, 0u8],
        },
        None => encode_ins(i, instrs),
    }
}

/// A forward-pass chunk is as wide as the instruction's declared width.
pub proof fn lemma_enc_partial_width(i: InsV, instrs: Seq<InstructionV>, k: int)
    ensures
        enc_partial(i, instrs, k).len() == ins_width(i),
{
    lemma_encode_ins_width(i, instrs);
}

/// The bytes the forward pass has emitted after processing the first `i`
/// instructions: each instruction's chunk, encoded with the labels recorded
/// up to and including its own.
pub open spec fn fwd_bytes(instrs: Seq<InstructionV>, i: int) -> Seq<u8>
    decreases i,
{
    if i <= 0 {
        Seq::empty()
    } else {
        fwd_bytes(instrs, i - 1) + enc_partial(instrs[i - 1].ins, instrs, i)
    }
}

/// The forward pass's output for a prefix is as long as the offset past it.
pub proof fn lemma_fwd_bytes_len(instrs: Seq<InstructionV>, i: int)
    requires
        i >= 0,
    ensures
        fwd_bytes(instrs, i).len() == spec_offset(instrs, i),
    decreases i,
{
    if i > 0 {
        lemma_fwd_bytes_len(instrs, i - 1);
        lemma_enc_partial_width(instrs[i - 1].ins, instrs, i);
    }
}

/// The pending fixups after the forward pass has processed `i` instructions:
/// the label and placeholder offset of each jump, in order, whose label was
/// not yet in the table when the jump was encoded.
pub open spec fn spec_fixups(instrs: Seq<InstructionV>, i: int) -> Seq<(Seq<char>, int)>
    decreases i,
{
    if i <= 0 {
        Seq::empty()
    } else {
        let pre = spec_fixups(instrs, i - 1);
        match jump_label(instrs[i - 1].ins) {
            Some(l) => if lookup_upto(instrs, i, l) is None {
                pre.push((l, spec_offset(instrs, i - 1)))
            } else {
                pre
            },
            None => pre,
        }
    }
}

/// Every pending fixup's three placeholder bytes lie inside the bytes emitted
/// so far.
pub proof fn lemma_fixups_bounds(instrs: Seq<InstructionV>, i: int)
    requires
        i >= 0,
    ensures
        forall|k: int|
            0 <= k < spec_fixups(instrs, i).len() ==> 0 <= #[trigger] spec_fixups(instrs, i)[k].1
                && spec_fixups(instrs, i)[k].1 + 3 <= spec_offset(instrs, i),
    decreases i,
{
    if i > 0 {
        lemma_fixups_bounds(instrs, i - 1);
        lemma_offset_monotone(instrs, i - 1, i);
        lemma_offset_monotone(instrs, 0, i - 1);
        assert forall|k: int| 0 <= k < spec_fixups(instrs, i).len() implies 0
            <= #[trigger] spec_fixups(instrs, i)[k].1 && spec_fixups(instrs, i)[k].1 + 3
            <= spec_offset(instrs, i) by {
            let pre = spec_fixups(instrs, i - 1);
            if k < pre.len() {
                assert(spec_fixups(instrs, i)[k] == pre[k]);
            }
        }
    }
}

/// A placeholder overwritten with the little-endian bytes of `v`: the low
/// byte directly after the opcode, the high byte after it.
pub open spec fn patch2(b: Seq<u8>, off: int, v: int) -> Seq<u8> {
    b.update(off + 1, lo_of(v)).update(off + 2, hi_of(v))
}

/// The bytes after the backpatch pass has visited the pending fixups in
/// order, overwriting each placeholder with its label's resolved offset.
pub open spec fn apply_patches(b: Seq<u8>, fx: Seq<(Seq<char>, int)>, instrs: Seq<InstructionV>) -> Seq<
    u8,
>
    decreases fx.len(),
{
    if fx.len() == 0 {
        b
    } else {
        let v = match lookup_label(instrs, fx[0].0) {
            Some(o) => o,
            None => 0,
        };
        apply_patches(patch2(b, fx[0].1, v), fx.drop_first(), instrs)
    }
}

/// Patching inside the left part of a concatenation leaves the right part
/// alone.
pub proof fn lemma_apply_patches_concat(
    b: Seq<u8>,
    c: Seq<u8>,
    fx: Seq<(Seq<char>, int)>,
    instrs: Seq<InstructionV>,
)
    requires
        forall|k: int| 0 <= k < fx.len() ==> 0 <= #[trigger] fx[k].1 && fx[k].1 + 3 <= b.len(),
    ensures
        apply_patches(b + c, fx, instrs) == apply_patches(b, fx, instrs) + c,
    decreases fx.len(),
{
    if fx.len() > 0 {
        let off = fx[0].1;
        let v = match lookup_label(instrs, fx[0].0) {
            Some(o) => o,
            None => 0,
        };
        assert(patch2(b + c, off, v) =~= patch2(b, off, v) + c);
        assert forall|k: int|
            0 <= k < fx.drop_first().len() implies 0 <= #[trigger] fx.drop_first()[k].1
            && fx.drop_first()[k].1 + 3 <= patch2(b, off, v).len() by {
            assert(fx.drop_first()[k] == fx[k + 1]);
        }
        lemma_apply_patches_concat(patch2(b, off, v), c, fx.drop_first(), instrs);
        assert(apply_patches(b + c, fx, instrs) == apply_patches(
            patch2(b + c, off, v),
            fx.drop_first(),
            instrs,
        ));
        assert(apply_patches(b, fx, instrs) == apply_patches(
            patch2(b, off, v),
            fx.drop_first(),
            instrs,
        ));
    }
}

/// A fixup appended to the list is the one the backpatch pass visits last.
pub proof fn lemma_apply_patches_push(
    b: Seq<u8>,
    fx: Seq<(Seq<char>, int)>,
    x: (Seq<char>, int),
    instrs: Seq<InstructionV>,
)
    ensures
        apply_patches(b, fx.push(x), instrs) == patch2(
            apply_patches(b, fx, instrs),
            x.1,
            match lookup_label(instrs, x.0) {
                Some(o) => o,
                None => 0,
            },
        ),
    decreases fx.len(),
{
    let vx = match lookup_label(instrs, x.0) {
        Some(o) => o,
        None => 0,
    };
    if fx.len() == 0 {
        assert(fx.push(x)[0] == x);
        assert(fx.push(x).drop_first() =~= Seq::<(Seq<char>, int)>::empty());
        assert(apply_patches(b, fx.push(x), instrs) == apply_patches(
            patch2(b, x.1, vx),
            fx.push(x).drop_first(),
            instrs,
        ));
        assert(apply_patches(patch2(b, x.1, vx), Seq::<(Seq<char>, int)>::empty(), instrs)
            == patch2(b, x.1, vx));
        assert(apply_patches(b, fx, instrs) == b);
    } else {
        assert(fx.push(x)[0] == fx[0]);
        assert(fx.push(x).drop_first() =~= fx.drop_first().push(x));
        let v0 = match lookup_label(instrs, fx[0].0) {
            Some(o) => o,
            None => 0,
        };
        lemma_apply_patches_push(patch2(b, fx[0].1, v0), fx.drop_first(), x, instrs);
        assert(apply_patches(b, fx.push(x), instrs) == apply_patches(
            patch2(b, fx[0].1, v0),
            fx.drop_first().push(x),
            instrs,
        ));
        assert(apply_patches(b, fx, instrs) == apply_patches(
            patch2(b, fx[0].1, v0),
            fx.drop_first(),
            instrs,
        ));
    }
}

/// The whole point of the backpatch pass: visiting every pending fixup over
/// the forward pass's bytes yields exactly the fully resolved encoding, as
/// long as the forward pass met no error and every jump label is declared
/// somewhere.
pub proof fn lemma_patched_is_encoded(instrs: Seq<InstructionV>, i: int)
    requires
        0 <= i <= instrs.len(),
        first_pass_error(instrs, i) is None,
        first_unresolved(instrs, i) is None,
    ensures
        apply_patches(fwd_bytes(instrs, i), spec_fixups(instrs, i), instrs) == encode_all(
            instrs,
            i,
        ),
    decreases i,
{
    if i > 0 {
        assert(first_pass_error(instrs, i - 1) is None);
        assert(first_unresolved(instrs, i - 1) is None);
        lemma_patched_is_encoded(instrs, i - 1);
        lemma_fixups_bounds(instrs, i - 1);
        lemma_fwd_bytes_len(instrs, i - 1);
        lemma_encode_all_len(instrs, i - 1);
        let ins = instrs[i - 1].ins;
        let b = fwd_bytes(instrs, i - 1);
        let c = enc_partial(ins, instrs, i);
        let fx = spec_fixups(instrs, i - 1);
        lemma_apply_patches_concat(b, c, fx, instrs);
        match jump_label(ins) {
            None => {
                assert(c == encode_ins(ins, instrs));
            },
            Some(l) => {
                match lookup_upto(instrs, i, l) {
                    Some(o) => {
                        lemma_lookup_monotone(instrs, i, instrs.len() as int, l);
                        assert(c =~= encode_ins(ins, instrs));
                    },
                    None => {
                        // this jump left a placeholder; its fixup is visited
                        // last, and its label is declared somewhere because
                        // nothing is unresolved
                        assert(jump_label(instrs[i - 1].ins) == Some(l));
                        assert(lookup_label(instrs, l) is Some);
                        let o = lookup_label(instrs, l)->Some_0;
                        let x = (l, spec_offset(instrs, i - 1));
                        assert(spec_fixups(instrs, i) == fx.push(x));
                        lemma_apply_patches_push(b + c, fx, x, instrs);
                        assert(patch2(apply_patches(b, fx, instrs) + c, x.1, o) =~= apply_patches(
                            b,
                            fx,
                            instrs,
                        ) + c.update(1, lo_of(o)).update(2, hi_of(o)));
                        assert(c.update(1, lo_of(o)).update(2, hi_of(o)) =~= encode_ins(
                            ins,
                            instrs,
                        ));
                    },
                }
            },
        }
    }
}

/// The first pending fixup, in order, whose label the symbol table lacks.
pub open spec fn first_failing_fixup(fx: Seq<(Seq<char>, int)>, instrs: Seq<InstructionV>) -> Option<
    Seq<char>,
>
    decreases fx.len(),
{
    if fx.len() == 0 {
        None
    } else if lookup_label(instrs, fx[0].0) is None {
        Some(fx[0].0)
    } else {
        first_failing_fixup(fx.drop_first(), instrs)
    }
}

proof fn lemma_first_failing_fixup_push(
    fx: Seq<(Seq<char>, int)>,
    x: (Seq<char>, int),
    instrs: Seq<InstructionV>,
)
    ensures
        first_failing_fixup(fx.push(x), instrs) == match first_failing_fixup(fx, instrs) {
            Some(l) => Some(l),
            None => if lookup_label(instrs, x.0) is None {
                Some(x.0)
            } else {
                None
            },
        },
    decreases fx.len(),
{
    if fx.len() == 0 {
        assert(fx.push(x)[0] == x);
        assert(fx.push(x).drop_first() =~= Seq::<(Seq<char>, int)>::empty());
    } else {
        assert(fx.push(x)[0] == fx[0]);
        assert(fx.push(x).drop_first() =~= fx.drop_first().push(x));
        lemma_first_failing_fixup_push(fx.drop_first(), x, instrs);
    }
}

/// Scanning the pending fixups in order for a label the symbol table lacks
/// finds exactly the program's first unresolved jump label.
pub proof fn lemma_fixups_unresolved(instrs: Seq<InstructionV>, i: int)
    requires
        0 <= i <= instrs.len(),
    ensures
        first_failing_fixup(spec_fixups(instrs, i), instrs) == first_unresolved(instrs, i),
    decreases i,
{
    if i > 0 {
        lemma_fixups_unresolved(instrs, i - 1);
        let fx = spec_fixups(instrs, i - 1);
        match jump_label(instrs[i - 1].ins) {
            Some(l) => {
                match lookup_upto(instrs, i, l) {
                    Some(o) => {
                        lemma_lookup_monotone(instrs, i, instrs.len() as int, l);
                    },
                    None => {
                        lemma_first_failing_fixup_push(
                            fx,
                            (l, spec_offset(instrs, i - 1)),
                            instrs,
                        );
                    },
                }
            },
            None => {},
        }
    }
}

/// A suffix of resolved fixups scans like the whole list once the resolved
/// prefix is dropped.
pub proof fn lemma_first_failing_fixup_skip(
    fx: Seq<(Seq<char>, int)>,
    k: int,
    instrs: Seq<InstructionV>,
)
    requires
        0 <= k <= fx.len(),
        forall|t: int| 0 <= t < k ==> lookup_label(instrs, #[trigger] fx[t].0) is Some,
    ensures
        first_failing_fixup(fx, instrs) == first_failing_fixup(fx.skip(k), instrs),
    decreases k,
{
    if k > 0 {
        assert(lookup_label(instrs, fx[0].0) is Some);
        assert(fx.drop_first().skip(k - 1) =~= fx.skip(k));
        assert forall|t: int|
            0 <= t < k - 1 implies lookup_label(instrs, #[trigger] fx.drop_first()[t].0) is Some by {
            assert(fx.drop_first()[t] == fx[t + 1]);
            assert(lookup_label(instrs, fx[t + 1].0) is Some);
        }
        lemma_first_failing_fixup_skip(fx.drop_first(), k - 1, instrs);
        assert(first_failing_fixup(fx, instrs) == first_failing_fixup(
            fx.drop_first(),
            instrs,
        ));
        assert(first_failing_fixup(fx.drop_first().skip(k - 1), instrs) == first_failing_fixup(
            fx.skip(k),
            instrs,
        ));
    } else {
        assert(fx.skip(0) =~= fx);
    }
}

proof fn lemma_encode_all_chunk(instrs: Seq<InstructionV>, j: int, n: int)
    requires
        0 <= j < n <= instrs.len(),
    ensures
        encode_all(instrs, n).subrange(spec_offset(instrs, j), spec_offset(instrs, j + 1))
            == encode_ins(instrs[j].ins, instrs),
    decreases n,
{
    lemma_encode_all_len(instrs, n - 1);
    lemma_encode_ins_width(instrs[n - 1].ins, instrs);
    lemma_offset_monotone(instrs, 0, j);
    if n == j + 1 {
        assert(encode_all(instrs, n).subrange(spec_offset(instrs, j), spec_offset(instrs, j + 1))
            =~= encode_ins(instrs[j].ins, instrs));
    } else {
        lemma_encode_all_chunk(instrs, j, n - 1);
        lemma_offset_monotone(instrs, j + 1, n - 1);
        assert(encode_all(instrs, n).subrange(spec_offset(instrs, j), spec_offset(instrs, j + 1))
            =~= encode_all(instrs, n - 1).subrange(
            spec_offset(instrs, j),
            spec_offset(instrs, j + 1),
        ));
    }
}

/// Every instruction of a successfully assembled program contributes exactly
/// its encoding-table bytes, at its own offset; the whole output is exactly
/// as long as the sum of the declared widths.
pub proof fn lemma_instruction_bytes(instrs: Seq<InstructionV>, j: int, bytes: Seq<u8>)
    requires
        spec_assemble(instrs) == Ok::<Seq<u8>, AssembleErrorV>(bytes),
        0 <= j < instrs.len(),
    ensures
        bytes.len() == spec_offset(instrs, instrs.len() as int),
        bytes.subrange(spec_offset(instrs, j), spec_offset(instrs, j + 1)) == encode_ins(
            instrs[j].ins,
            instrs,
        ),
{
    lemma_encode_all_len(instrs, instrs.len() as int);
    lemma_encode_all_chunk(instrs, j, instrs.len() as int);
}

proof fn lemma_no_unresolved(instrs: Seq<InstructionV>, n: int, j: int)
    requires
        0 <= j < n <= instrs.len(),
        first_unresolved(instrs, n) is None,
        jump_label(instrs[j].ins) is Some,
    ensures
        lookup_label(instrs, jump_label(instrs[j].ins)->Some_0) is Some,
    decreases n,
{
    if j < n - 1 {
        assert(first_unresolved(instrs, n - 1) is None);
        lemma_no_unresolved(instrs, n - 1, j);
    }
}

/// Forward label resolution: wherever in the program a jump's label is
/// declared — before or after the jump — assembling succeeds only when the
/// label is declared, and the two bytes after the jump's opcode hold the
/// little-endian offset of the labeled instruction.
pub proof fn lemma_label_resolution(instrs: Seq<InstructionV>, j: int, bytes: Seq<u8>)
    requires
        spec_assemble(instrs) == Ok::<Seq<u8>, AssembleErrorV>(bytes),
        0 <= j < instrs.len(),
        jump_label(instrs[j].ins) is Some,
    ensures
        lookup_label(instrs, jump_label(instrs[j].ins)->Some_0) is Some,
        bytes[spec_offset(instrs, j)] == jump_opcode(instrs[j].ins),
        bytes[spec_offset(instrs, j) + 1] == lo_of(
            lookup_label(instrs, jump_label(instrs[j].ins)->Some_0)->Some_0,
        ),
        bytes[spec_offset(instrs, j) + 2] == hi_of(
            lookup_label(instrs, jump_label(instrs[j].ins)->Some_0)->Some_0,
        ),
{
    lemma_no_unresolved(instrs, instrs.len() as int, j);
    lemma_instruction_bytes(instrs, j, bytes);
    lemma_offset_monotone(instrs, 0, j);
    lemma_offset_monotone(instrs, j + 1, instrs.len() as int);
    let chunk = bytes.subrange(spec_offset(instrs, j), spec_offset(instrs, j + 1));
    assert(bytes[spec_offset(instrs, j)] == chunk[0]);
    assert(bytes[spec_offset(instrs, j) + 1] == chunk[1]);
    assert(bytes[spec_offset(instrs, j) + 2] == chunk[2]);
}

/// Assembling is a mathematical function of the instruction records alone:
/// identical records yield byte-identical output, so assembling the same
/// source twice yields the same bytes.
pub proof fn lemma_assemble_deterministic(a: Seq<InstructionV>, b: Seq<InstructionV>)
    requires
        a == b,
    ensures
        spec_assemble(a) == spec_assemble(b),
{
}

/// The offset an association list holds for a name: the first entry with that
/// name decides.
pub open spec fn assoc(s: Seq<(String, u16)>, name: Seq<char>) -> Option<u16>
    decreases s.len(),
{
    if s.len() == 0 {
        None
    } else if s[0].0@ == name {
        Some(s[0].1)
    } else {
        assoc(s.drop_first(), name)
    }
}

/// An entry appended to the association list answers only the names no
/// earlier entry answers.
proof fn lemma_assoc_push(s: Seq<(String, u16)>, x: (String, u16), name: Seq<char>)
    ensures
        assoc(s.push(x), name) == (match assoc(s, name) {
            Some(o) => Some(o),
            None => if x.0@ == name {
                Some(x.1)
            } else {
                None::<u16>
            },
        }),
    decreases s.len(),
{
    if s.len() == 0 {
        let e = Seq::<(String, u16)>::empty();
        assert(s.push(x)[0] == x);
        assert(s.push(x).drop_first() =~= e);
        assert(assoc(e, name) is None);
        assert(s =~= e);
    } else {
        assert(s.push(x)[0] == s[0]);
        assert(s.push(x).drop_first() =~= s.drop_first().push(x));
        lemma_assoc_push(s.drop_first(), x, name);
        assert(assoc(s.push(x), name) == (if s[0].0@ == name {
            Some(s[0].1)
        } else {
            assoc(s.drop_first().push(x), name)
        }));
        assert(assoc(s, name) == (if s[0].0@ == name {
            Some(s[0].1)
        } else {
            assoc(s.drop_first(), name)
        }));
    }
}

/// Whether the symbol table agrees, on one name, with the labels of the first
/// `n` instructions: same presence, same offset, and the offset fits 16 bits.
pub open spec fn lookup_matches(
    s: Seq<(String, u16)>,
    instrs: Seq<InstructionV>,
    n: int,
    name: Seq<char>,
) -> bool {
    match lookup_upto(instrs, n, name) {
        Some(o) => assoc(s, name) == Some(o as u16) && 0 <= o <= 0xFFFF,
        None => assoc(s, name) is None,
    }
}

/// Whether the symbol table agrees, on every name, with the labels of the
/// first `n` instructions.
pub open spec fn syms_matches(s: Seq<(String, u16)>, instrs: Seq<InstructionV>, n: int) -> bool {
    forall|name: Seq<char>| #[trigger] lookup_matches(s, instrs, n, name)
}

/// Whether the pending-fixup list matches its mathematical value entry by
/// entry.
pub open spec fn fixups_ok(f: Seq<(String, usize)>, fx: Seq<(Seq<char>, int)>) -> bool {
    f.len() == fx.len() && forall|k: int|
        0 <= k < f.len() ==> (#[trigger] f[k]).0@ == fx[k].0 && f[k].1 as int == fx[k].1
}

/// The offset the symbol table holds for a name, if any.
fn sym_lookup(syms: &Vec<(String, u16)>, name: &str) -> (r: Option<u16>)
    ensures
        r == assoc(syms@, name@),
{
    proof {
        assert(syms@.skip(0) =~= syms@);
    }
    let mut k: usize = 0;
    while k < syms.len()
        invariant
            k <= syms@.len(),
            assoc(syms@, name@) == assoc(syms@.skip(k as int), name@),
        decreases syms@.len() - k,
    {
        proof {
            assert(syms@.skip(k as int)[0] == syms@[k as int]);
        }
        let entry = &syms[k];
        if str_eq(entry.0.as_str(), name) {
            return Some(entry.1);
        }
        proof {
            assert(syms@.skip(k as int).drop_first() =~= syms@.skip(k as int + 1));
        }
        k += 1;
    }
    proof {
        assert(syms@.skip(k as int) =~= Seq::<(String, u16)>::empty());
    }
    None
}

/// Encodes one instruction into the output: records the chunk the forward
/// pass emits for it — for a jump to a label not yet in the table, the opcode
/// and a zero placeholder, together with a pending fixup — or reports its
/// operand pattern as outside the encoding table.
#[verifier::rlimit(100)]
fn encode_one(
    out: &mut Vec<u8>,
    fixups: &mut Vec<(String, usize)>,
    syms: &Vec<(String, u16)>,
    instr: &Instruction,
    Ghost(instrs): Ghost<Seq<InstructionV>>,
    Ghost(i): Ghost<int>,
) -> (r: Result<(), AssembleError>)
    requires
        0 <= i < instrs.len(),
        instrs[i] == instr@,
        old(out)@ == fwd_bytes(instrs, i),
        syms_matches(syms@, instrs, i + 1),
        fixups_ok(old(fixups)@, spec_fixups(instrs, i)),
    ensures
        match r {
            Ok(()) => encodable(instrs[i].ins) && final(out)@ == fwd_bytes(instrs, i + 1)
                && fixups_ok(final(fixups)@, spec_fixups(instrs, i + 1)),
            Err(e) => !encodable(instrs[i].ins) && e@ == AssembleErrorV::UnsupportedOperand(
                instrs[i].ins,
            ),
        },
{
    let ghost pre = out@;
    match &instr.ins {
        Ins::Mov(d, s) => {
            if matches!(d, Registers::RegM) && matches!(s, Registers::RegM) {
                return Err(AssembleError::UnsupportedOperand(instr.ins.duplicate()));
            }
            out.push(0x40u8 + reg_code(*d) * 8 + reg_code(*s));
            proof {
                assert(out@ =~= pre + enc_partial(instrs[i].ins, instrs, i + 1));
            }
        },
        Ins::Mvi(r, v) => {
            if matches!(r, Registers::RegM) {
                return Err(AssembleError::UnsupportedOperand(instr.ins.duplicate()));
            }
            out.push(0x06u8 + reg_code(*r) * 8);
            out.push(*v);
            proof {
                assert(out@ =~= pre + enc_partial(instrs[i].ins, instrs, i + 1));
            }
        },
        Ins::Add(r) => {
            out.push(0x80u8 + reg_code(*r));
            proof {
                assert(out@ =~= pre + enc_partial(instrs[i].ins, instrs, i + 1));
            }
        },
        Ins::Adc(r) => {
            out.push(0x88u8 + reg_code(*r));
            proof {
                assert(out@ =~= pre + enc_partial(instrs[i].ins, instrs, i + 1));
            }
        },
        Ins::Sub(r) => {
            out.push(0x90u8 + reg_code(*r));
            proof {
                assert(out@ =~= pre + enc_partial(instrs[i].ins, instrs, i + 1));
            }
        },
        Ins::Cmp(r) => {
            out.push(0xB8u8 + reg_code(*r));
            proof {
                assert(out@ =~= pre + enc_partial(instrs[i].ins, instrs, i + 1));
            }
        },
        Ins::Adi(v) => {
            out.push(0xC6);
            out.push(*v);
            proof {
                assert(out@ =~= pre + enc_partial(instrs[i].ins, instrs, i + 1));
            }
        },
        Ins::Ani(v) => {
            out.push(0xE6);
            out.push(*v);
            proof {
                assert(out@ =~= pre + enc_partial(instrs[i].ins, instrs, i + 1));
            }
        },
        Ins::Lxi(r, a) => {
            let opcode: u8 = match r {
                Registers::RegB => 0x01,
                Registers::RegD => 0x11,
                Registers::RegH => 0x21,
                _ => {
                    return Err(AssembleError::UnsupportedOperand(instr.ins.duplicate()));
                },
            };
            out.push(opcode);
            out.push((*a % 256) as u8);
            out.push((*a / 256) as u8);
            proof {
                assert(out@ =~= pre + enc_partial(instrs[i].ins, instrs, i + 1));
            }
        },
        Ins::Lda(a) => {
            out.push(0x3A);
            out.push((*a % 256) as u8);
            out.push((*a / 256) as u8);
            proof {
                assert(out@ =~= pre + enc_partial(instrs[i].ins, instrs, i + 1));
            }
        },
        Ins::Sta(a) => {
            out.push(0x32);
            out.push((*a % 256) as u8);
            out.push((*a / 256) as u8);
            proof {
                assert(out@ =~= pre + enc_partial(instrs[i].ins, instrs, i + 1));
            }
        },
        Ins::Lhld(a) => {
            out.push(0x2A);
            out.push((*a % 256) as u8);
            out.push((*a / 256) as u8);
            proof {
                assert(out@ =~= pre + enc_partial(instrs[i].ins, instrs, i + 1));
            }
        },
        Ins::Shld(a) => {
            out.push(0x22);
            out.push((*a % 256) as u8);
            out.push((*a / 256) as u8);
            proof {
                assert(out@ =~= pre + enc_partial(instrs[i].ins, instrs, i + 1));
            }
        },
        Ins::Inx(r) => {
            let opcode: u8 = match r {
                Registers::RegB => 0x03,
                Registers::RegD => 0x13,
                Registers::RegH => 0x23,
                _ => {
                    return Err(AssembleError::UnsupportedOperand(instr.ins.duplicate()));
                },
            };
            out.push(opcode);
            proof {
                assert(out@ =~= pre + enc_partial(instrs[i].ins, instrs, i + 1));
            }
        },
        Ins::Inr(r) => {
            if matches!(r, Registers::RegM) {
                return Err(AssembleError::UnsupportedOperand(instr.ins.duplicate()));
            }
            out.push(0x04u8 + reg_code(*r) * 8);
            proof {
                assert(out@ =~= pre + enc_partial(instrs[i].ins, instrs, i + 1));
            }
        },
        Ins::Dcr(r) => {
            if matches!(r, Registers::RegM) {
                return Err(AssembleError::UnsupportedOperand(instr.ins.duplicate()));
            }
            out.push(0x05u8 + reg_code(*r) * 8);
            proof {
                assert(out@ =~= pre + enc_partial(instrs[i].ins, instrs, i + 1));
            }
        },
        Ins::Xchg => {
            out.push(0xEB);
            proof {
                assert(out@ =~= pre + enc_partial(instrs[i].ins, instrs, i + 1));
            }
        },
        Ins::Hlt => {
            out.push(0x76);
            proof {
                assert(out@ =~= pre + enc_partial(instrs[i].ins, instrs, i + 1));
            }
        },
        Ins::Jmp(t) => {
            emit_jump(out, fixups, syms, 0xC3, t, Ghost(instrs), Ghost(i));
        },
        Ins::Jnz(t) => {
            emit_jump(out, fixups, syms, 0xC2, t, Ghost(instrs), Ghost(i));
        },
        Ins::Jnc(t) => {
            emit_jump(out, fixups, syms, 0xD2, t, Ghost(instrs), Ghost(i));
        },
    }
    proof {
        assert(fwd_bytes(instrs, i + 1) == fwd_bytes(instrs, i) + enc_partial(
            instrs[i].ins,
            instrs,
            i + 1,
        ));
    }
    Ok(())
}

/// Emits the three bytes of a jump: the opcode, then the little-endian
/// target. An address target, and a label already in the table, are resolved
/// at once; a label not yet in the table leaves a zero placeholder and a
/// pending fixup at the jump's offset.
#[verifier::rlimit(100)]
fn emit_jump(
    out: &mut Vec<u8>,
    fixups: &mut Vec<(String, usize)>,
    syms: &Vec<(String, u16)>,
    opcode: u8,
    target: &JumpTarget,
    Ghost(instrs): Ghost<Seq<InstructionV>>,
    Ghost(i): Ghost<int>,
) -> (r: ())
    requires
        0 <= i < instrs.len(),
        jump_label(instrs[i].ins) == (match target@ {
            JumpTargetV::Label(l) => Some(l),
            JumpTargetV::Address(_) => None::<Seq<char>>,
        }),
        jump_opcode(instrs[i].ins) == opcode,
        ins_width(instrs[i].ins) == 3,
        encode_ins(instrs[i].ins, instrs) == (match target@ {
            JumpTargetV::Address(a) => seq![opcode, lo_of(a as int), hi_of(a as int)],
            JumpTargetV::Label(l) => seq![
                opcode,
                lo_of(target_value(target@, instrs)),
                hi_of(target_value(target@, instrs)),
            ],
        }),
        old(out)@ == fwd_bytes(instrs, i),
        syms_matches(syms@, instrs, i + 1),
        fixups_ok(old(fixups)@, spec_fixups(instrs, i)),
    ensures
        final(out)@ == fwd_bytes(instrs, i + 1),
        fixups_ok(final(fixups)@, spec_fixups(instrs, i + 1)),
{
    let ghost pre = out@;
    proof {
        lemma_fwd_bytes_len(instrs, i);
    }
    match target {
        JumpTarget::Address(a) => {
            out.push(opcode);
            out.push((*a % 256) as u8);
            out.push((*a / 256) as u8);
            proof {
                assert(out@ =~= pre + enc_partial(instrs[i].ins, instrs, i + 1));
                assert(fwd_bytes(instrs, i + 1) == fwd_bytes(instrs, i) + enc_partial(
                    instrs[i].ins,
                    instrs,
                    i + 1,
                ));
            }
        },
        JumpTarget::Label(l) => {
            match sym_lookup(syms, l.as_str()) {
                Some(o) => {
                    proof {
                        assert(lookup_matches(syms@, instrs, i + 1, l@));
                    }
                    out.push(opcode);
                    out.push((o % 256) as u8);
                    out.push((o / 256) as u8);
                    proof {
                        assert(out@ =~= pre + enc_partial(instrs[i].ins, instrs, i + 1));
                        assert(fwd_bytes(instrs, i + 1) == fwd_bytes(instrs, i) + enc_partial(
                            instrs[i].ins,
                            instrs,
                            i + 1,
                        ));
                    }
                },
                None => {
                    proof {
                        assert(lookup_matches(syms@, instrs, i + 1, l@));
                    }
                    let ghost fpre = fixups@;
                    let loc = out.len();
                    fixups.push((l.clone(), loc));
                    out.push(opcode);
                    out.push(0);
                    out.push(0);
                    proof {
                        assert(out@ =~= pre + enc_partial(instrs[i].ins, instrs, i + 1));
                        assert(fwd_bytes(instrs, i + 1) == fwd_bytes(instrs, i) + enc_partial(
                            instrs[i].ins,
                            instrs,
                            i + 1,
                        ));
                        let ghost sf = spec_fixups(instrs, i + 1);
                        assert(sf == spec_fixups(instrs, i).push((l@, spec_offset(instrs, i))));
                        assert forall|k: int|
                            0 <= k < fixups@.len() implies (#[trigger] fixups@[k]).0@ == sf[k].0
                            && fixups@[k].1 as int == sf[k].1 by {
                            if k < fpre.len() {
                                assert(fixups@[k] == fpre[k]);
                                assert(sf[k] == spec_fixups(instrs, i)[k]);
                            }
                        }
                    }
                },
            }
        },
    }
}

/// Assembles instruction records into machine-code bytes: the forward pass
/// records labels and encodes each instruction through the fixed table,
/// leaving placeholders and pending fixups for not-yet-declared labels; the
/// backpatch pass then resolves every placeholder. Fails loudly on a
/// duplicate label declaration, a label landing beyond the 16-bit range, an
/// operand pattern outside the table, and a jump label that is never
/// declared; nothing is silently dropped or left as stray zero bytes.
#[verifier::rlimit(100)]
pub fn assemble(instructions: &Vec<Instruction>) -> (r: Result<Vec<u8>, AssembleError>)
    ensures
        match r {
            Ok(bytes) => spec_assemble(instructions.deep_view()) == Ok::<Seq<u8>, AssembleErrorV>(
                bytes@,
            ),
            Err(e) => spec_assemble(instructions.deep_view()) == Err::<Seq<u8>, AssembleErrorV>(
                e@,
            ),
        },
{
    let ghost instrsv = instructions.deep_view();
    let n = instructions.len();
    let mut out: Vec<u8> = Vec::new();
    let mut syms: Vec<(String, u16)> = Vec::new();
    let mut fixups: Vec<(String, usize)> = Vec::new();
    proof {
        assert(out@ =~= fwd_bytes(instrsv, 0));
        assert forall|name: Seq<char>| #[trigger] lookup_matches(syms@, instrsv, 0, name) by {}
    }
    let mut i: usize = 0;
    while i < n
        invariant
            i <= n,
            n == instructions@.len(),
            instrsv == instructions.deep_view(),
            instrsv.len() == n,
            first_pass_error(instrsv, i as int) is None,
            out@ == fwd_bytes(instrsv, i as int),
            syms_matches(syms@, instrsv, i as int),
            fixups_ok(fixups@, spec_fixups(instrsv, i as int)),
        decreases n - i,
    {
        let instr = &instructions[i];
        proof {
            assert(instrsv[i as int] == instructions@[i as int].deep_view());
            lemma_fwd_bytes_len(instrsv, i as int);
        }
        match &instr.label {
            Some(l) => {
                proof {
                    assert(lookup_matches(syms@, instrsv, i as int, l@));
                }
                match sym_lookup(&syms, l.as_str()) {
                    Some(_) => {
                        proof {
                            assert(first_pass_error(instrsv, i + 1) == Some(
                                AssembleErrorV::DuplicateLabel(l@),
                            ));
                            lemma_first_pass_error_monotone(instrsv, i + 1, n as int);
                        }
                        return Err(AssembleError::DuplicateLabel(l.clone()));
                    },
                    None => {
                        if out.len() > 0xFFFF {
                            proof {
                                assert(first_pass_error(instrsv, i + 1) == Some(
                                    AssembleErrorV::ProgramTooLarge,
                                ));
                                lemma_first_pass_error_monotone(instrsv, i + 1, n as int);
                            }
                            return Err(AssembleError::ProgramTooLarge);
                        }
                        let ghost spre = syms@;
                        let off16: u16 = out.len() as u16;
                        syms.push((l.clone(), off16));
                        proof {
                            let x = syms@.last();
                            assert(syms@ == spre.push(x));
                            assert(x.0@ == l@ && x.1 == off16);
                            assert forall|name: Seq<char>| #[trigger] lookup_matches(
                                syms@,
                                instrsv,
                                i + 1,
                                name,
                            ) by {
                                assert(lookup_matches(spre, instrsv, i as int, name));
                                lemma_assoc_push(spre, x, name);
                            }
                        }
                    },
                }
            },
            None => {
                proof {
                    assert forall|name: Seq<char>| #[trigger] lookup_matches(
                        syms@,
                        instrsv,
                        i + 1,
                        name,
                    ) by {
                        assert(lookup_matches(syms@, instrsv, i as int, name));
                    }
                }
            },
        }
        match encode_one(&mut out, &mut fixups, &syms, instr, Ghost(instrsv), Ghost(i as int)) {
            Ok(()) => {
                proof {
                    assert(first_pass_error(instrsv, i + 1) is None);
                }
            },
            Err(e) => {
                proof {
                    assert(first_pass_error(instrsv, i + 1) == Some(
                        AssembleErrorV::UnsupportedOperand(instrsv[i as int].ins),
                    ));
                    lemma_first_pass_error_monotone(instrsv, i + 1, n as int);
                }
                return Err(e);
            },
        }
        i += 1;
    }
    proof {
        lemma_fixups_bounds(instrsv, n as int);
        lemma_fwd_bytes_len(instrsv, n as int);
        assert(spec_fixups(instrsv, n as int).skip(0) =~= spec_fixups(instrsv, n as int));
        assert(out@ == fwd_bytes(instrsv, n as int));
    }
    let ghost fxv = spec_fixups(instrsv, n as int);
    let m = fixups.len();
    let mut k: usize = 0;
    while k < m
        invariant
            k <= m,
            m == fixups@.len(),
            instrsv == instructions.deep_view(),
            instrsv.len() == n,
            first_pass_error(instrsv, n as int) is None,
            syms_matches(syms@, instrsv, n as int),
            fixups_ok(fixups@, fxv),
            fxv == spec_fixups(instrsv, n as int),
            out@.len() == spec_offset(instrsv, n as int),
            forall|t: int| 0 <= t < k ==> lookup_label(instrsv, #[trigger] fxv[t].0) is Some,
            apply_patches(out@, fxv.skip(k as int), instrsv) == apply_patches(
                fwd_bytes(instrsv, n as int),
                fxv,
                instrsv,
            ),
        decreases m - k,
    {
        proof {
            lemma_fixups_bounds(instrsv, n as int);
            assert(fxv.skip(k as int)[0] == fxv[k as int]);
        }
        let entry_label = fixups[k].0.clone();
        let loc = fixups[k].1;
        proof {
            assert(fixups@[k as int].0@ == fxv[k as int].0);
            assert(entry_label@ == fxv[k as int].0);
            assert(loc as int == fxv[k as int].1);
        }
        match sym_lookup(&syms, entry_label.as_str()) {
            None => {
                proof {
                    assert(lookup_matches(syms@, instrsv, n as int, entry_label@));
                    assert(lookup_label(instrsv, entry_label@) is None);
                    lemma_first_failing_fixup_skip(fxv, k as int, instrsv);
                    assert(first_failing_fixup(fxv.skip(k as int), instrsv) == Some(
                        entry_label@,
                    ));
                    lemma_fixups_unresolved(instrsv, n as int);
                    assert(first_unresolved(instrsv, n as int) == Some(entry_label@));
                }
                return Err(AssembleError::UnresolvedLabel(entry_label));
            },
            Some(o) => {
                let ghost out_pre = out@;
                proof {
                    assert(lookup_matches(syms@, instrsv, n as int, entry_label@));
                    assert(lookup_label(instrsv, entry_label@) is Some);
                    lemma_fixups_bounds(instrsv, n as int);
                    assert(fxv[k as int].1 + 3 <= spec_offset(instrsv, n as int));
                }
                let total = out.len();
                proof {
                    assert(loc + 3 <= total);
                }
                out[loc + 1] = (o % 256) as u8;
                out[loc + 2] = (o / 256) as u8;
                proof {
                    let ghost ov = lookup_label(instrsv, entry_label@)->Some_0;
                    assert(o as int == ov);
                    assert(out@ =~= patch2(out_pre, fxv[k as int].1, ov));
                    assert(fxv.skip(k as int).drop_first() =~= fxv.skip(k as int + 1));
                    assert(apply_patches(out_pre, fxv.skip(k as int), instrsv) == apply_patches(
                        patch2(out_pre, fxv[k as int].1, ov),
                        fxv.skip(k as int).drop_first(),
                        instrsv,
                    ));
                }
                k += 1;
            },
        }
    }
    proof {
        assert forall|t: int| 0 <= t < fxv.len() implies lookup_label(
            instrsv,
            #[trigger] fxv[t].0,
        ) is Some by {}
        lemma_first_failing_fixup_skip(fxv, m as int, instrsv);
        let e = Seq::<(Seq<char>, int)>::empty();
        assert(fxv.skip(m as int) =~= e);
        assert(first_failing_fixup(e, instrsv) is None);
        assert(first_failing_fixup(fxv, instrsv) is None);
        lemma_fixups_unresolved(instrsv, n as int);
        assert(first_unresolved(instrsv, n as int) is None);
        assert(apply_patches(out@, fxv.skip(m as int), instrsv) == out@);
        lemma_patched_is_encoded(instrsv, n as int);
        assert(out@ == encode_all(instrsv, n as int));
    }
    Ok(out)
}

} // verus!
