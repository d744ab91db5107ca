use emulator_8085::assembler::{assemble, AssembleError};
use emulator_8085::assemble_source;
use emulator_8085::cpu::Registers;
use emulator_8085::parser::{Ins, Instruction, JumpTarget};

fn ins(i: Ins) -> Instruction {
    Instruction { label: None, ins: i }
}

fn labeled(l: &str, i: Ins) -> Instruction {
    Instruction { label: Some(l.to_string()), ins: i }
}

#[test]
fn assembler_test_loop() {
    assert_eq!(
        assemble(&vec![
            ins(Ins::Lxi(Registers::RegH, 0x2050)),
            ins(Ins::Mvi(Registers::RegB, 0x01)),
            ins(Ins::Mvi(Registers::RegC, 0x0A)),
            labeled("X", Ins::Mov(Registers::RegM, Registers::RegB)),
            ins(Ins::Inx(Registers::RegH)),
            ins(Ins::Inr(Registers::RegB)),
            ins(Ins::Dcr(Registers::RegC)),
            ins(Ins::Jnz(JumpTarget::Label("X".to_string()))),
        ])
        .unwrap(),
        vec![0x21, 0x50, 0x20, 0x06, 0x01, 0x0E, 0x0A, 0x70, 0x23, 0x04, 0x0D, 0xC2, 0x07, 0x00]
    );
}

#[test]
fn single_instruction_encodings() {
    assert_eq!(assemble_source("MVI A,15").unwrap(), vec![0x3E, 0x15]);
    assert_eq!(assemble_source("ADD B").unwrap(), vec![0x80]);
    assert_eq!(assemble_source("XCHG").unwrap(), vec![0xEB]);
    assert_eq!(assemble_source("MOV A,B").unwrap(), vec![0x78]);
    assert_eq!(assemble_source("MOV M,A").unwrap(), vec![0x77]);
    assert_eq!(assemble_source("MOV C,M").unwrap(), vec![0x4E]);
    assert_eq!(assemble_source("MVI B,7F").unwrap(), vec![0x06, 0x7F]);
    assert_eq!(assemble_source("LXI H,2501").unwrap(), vec![0x21, 0x01, 0x25]);
    assert_eq!(assemble_source("LXI B,2050").unwrap(), vec![0x01, 0x50, 0x20]);
    assert_eq!(assemble_source("LXI D,2050").unwrap(), vec![0x11, 0x50, 0x20]);
    assert_eq!(assemble_source("JMP 2050").unwrap(), vec![0xC3, 0x50, 0x20]);
    assert_eq!(assemble_source("JNZ 2050").unwrap(), vec![0xC2, 0x50, 0x20]);
    assert_eq!(assemble_source("JNC 2050").unwrap(), vec![0xD2, 0x50, 0x20]);
    assert_eq!(assemble_source("STA 2300").unwrap(), vec![0x32, 0x00, 0x23]);
    assert_eq!(assemble_source("LDA 2300").unwrap(), vec![0x3A, 0x00, 0x23]);
    assert_eq!(assemble_source("LHLD 2501").unwrap(), vec![0x2A, 0x01, 0x25]);
    assert_eq!(assemble_source("SHLD 2505").unwrap(), vec![0x22, 0x05, 0x25]);
    assert_eq!(assemble_source("INX H").unwrap(), vec![0x23]);
    assert_eq!(assemble_source("INR A").unwrap(), vec![0x3C]);
    assert_eq!(assemble_source("DCR C").unwrap(), vec![0x0D]);
    assert_eq!(assemble_source("SUB M").unwrap(), vec![0x96]);
    assert_eq!(assemble_source("ADC H").unwrap(), vec![0x8C]);
    assert_eq!(assemble_source("CMP M").unwrap(), vec![0xBE]);
    assert_eq!(assemble_source("ADI 01").unwrap(), vec![0xC6, 0x01]);
    assert_eq!(assemble_source("ANI 0F").unwrap(), vec![0xE6, 0x0F]);
    assert_eq!(assemble_source("HLT").unwrap(), vec![0x76]);
}

#[test]
fn forward_label_resolution() {
    // the label is declared after its use: the placeholder is backpatched
    // with the labeled instruction's offset
    let bytes = assemble_source("JNZ X\nMVI A,01\nX: HLT").unwrap();
    assert_eq!(bytes, vec![0xC2, 0x05, 0x00, 0x3E, 0x01, 0x76]);
    // the label is declared before its use: resolved directly, same offset
    let back = assemble_source("X: MVI A,01\nJNZ X").unwrap();
    assert_eq!(back, vec![0x3E, 0x01, 0xC2, 0x00, 0x00]);
}

#[test]
fn assemble_idempotent() {
    let source = "LXI H,2050\nMVI B,01\nX: MOV M,B\nJNZ X\nHLT";
    let first = assemble_source(source).unwrap();
    let second = assemble_source(source).unwrap();
    assert_eq!(first, second);
}

#[test]
fn duplicate_label_is_an_error() {
    let r = assemble(&vec![
        labeled("X", Ins::Hlt),
        labeled("X", Ins::Hlt),
    ]);
    assert_eq!(r, Err(AssembleError::DuplicateLabel("X".to_string())));
}

#[test]
fn unresolved_label_is_an_error() {
    let r = assemble_source("JNZ NOWHERE\nHLT");
    match r {
        Err(emulator_8085::AssemblyError::Assemble(AssembleError::UnresolvedLabel(l))) => {
            assert_eq!(l, "NOWHERE");
        }
        other => panic!("expected an unresolved-label error, got {:?}", other),
    }
}

#[test]
fn unsupported_operands_are_errors() {
    assert_eq!(
        assemble(&vec![ins(Ins::Mov(Registers::RegM, Registers::RegM))]),
        Err(AssembleError::UnsupportedOperand(Ins::Mov(Registers::RegM, Registers::RegM)))
    );
    assert_eq!(
        assemble(&vec![ins(Ins::Mvi(Registers::RegM, 1))]),
        Err(AssembleError::UnsupportedOperand(Ins::Mvi(Registers::RegM, 1)))
    );
    assert_eq!(
        assemble(&vec![ins(Ins::Lxi(Registers::RegA, 0x2000))]),
        Err(AssembleError::UnsupportedOperand(Ins::Lxi(Registers::RegA, 0x2000)))
    );
    assert_eq!(
        assemble(&vec![ins(Ins::Inx(Registers::RegC))]),
        Err(AssembleError::UnsupportedOperand(Ins::Inx(Registers::RegC)))
    );
    assert_eq!(
        assemble(&vec![ins(Ins::Inr(Registers::RegM))]),
        Err(AssembleError::UnsupportedOperand(Ins::Inr(Registers::RegM)))
    );
}

#[test]
fn label_beyond_address_range_is_an_error() {
    // 21846 three-byte instructions add up to 65538 bytes, so a label on a
    // final instruction would land beyond the 16-bit range
    let mut program = Vec::new();
    for _ in 0..21846 {
        program.push(ins(Ins::Lxi(Registers::RegH, 0)));
    }
    program.push(labeled("END", Ins::Hlt));
    assert_eq!(assemble(&program), Err(AssembleError::ProgramTooLarge));
    // without the label the same program assembles (it is merely too large
    // to load)
    let mut unlabeled = Vec::new();
    for _ in 0..21846 {
        unlabeled.push(ins(Ins::Lxi(Registers::RegH, 0)));
    }
    unlabeled.push(ins(Ins::Hlt));
    assert_eq!(assemble(&unlabeled).unwrap().len(), 65539);
}

#[test]
fn create_instruction_is_unlabeled() {
    let i = emulator_8085::parser::create_instruction(Ins::Hlt);
    assert_eq!(i, ins(Ins::Hlt));
}
