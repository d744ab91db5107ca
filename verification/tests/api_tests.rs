use emulator_8085::application::Application;
use emulator_8085::memory::{ExecutionFault, Memory, MEMORY_SIZE};
use emulator_8085::syntax_highlighting::Language;

#[test]
fn boundary_accesses() {
    // the highest valid address works in both directions
    let mut m = Memory::new();
    m.write(0xFFFF, 0xAB).unwrap();
    assert_eq!(m.read(0xFFFF).unwrap(), 0xAB);
    // an index at or beyond the memory size fails with a fault carrying the
    // offending address, and corrupts nothing
    assert_eq!(m.write(MEMORY_SIZE, 1), Err(ExecutionFault { address: MEMORY_SIZE }));
    assert_eq!(m.read(0x10000), Err(ExecutionFault { address: 0x10000 }));
    assert_eq!(m.read(0xFFFF).unwrap(), 0xAB);
    // the engine's accessors report the same fault
    let mut cpu = emulator_8085::cpu::Cpu::new();
    assert_eq!(cpu.write_memory(0x10000, 1), Err(ExecutionFault { address: 0x10000 }));
    assert_eq!(cpu.read_memory(0x12345).unwrap_err(), ExecutionFault { address: 0x12345 });
    cpu.write_memory(0xFFFF, 7).unwrap();
    assert_eq!(cpu.read_memory(0xFFFF).unwrap(), 7);
}

#[test]
fn write_word_is_big_endian_and_bounds_checked() {
    let mut m = Memory::new();
    m.write_word(0x10, 0x1234).unwrap();
    assert_eq!(m.read(0x10).unwrap(), 0x12);
    assert_eq!(m.read(0x11).unwrap(), 0x34);
    assert_eq!(m.write_word(0xFFFF, 0x1234), Err(ExecutionFault { address: 0x10000 }));
    assert_eq!(m.read(0xFFFF).unwrap(), 0);
}

#[test]
fn load_writes_from_address_zero() {
    let mut m = Memory::new();
    m.write(4, 0x99).unwrap();
    m.load(&vec![1, 2, 3]).unwrap();
    assert_eq!(m.read(0).unwrap(), 1);
    assert_eq!(m.read(1).unwrap(), 2);
    assert_eq!(m.read(2).unwrap(), 3);
    assert_eq!(m.read(4).unwrap(), 0x99);
    let oversized = vec![0u8; MEMORY_SIZE + 1];
    assert_eq!(m.load(&oversized), Err(ExecutionFault { address: MEMORY_SIZE }));
    assert_eq!(m.read(0).unwrap(), 1);
}

#[test]
fn application_assembles_and_evaluates() {
    let mut app = Application::new();
    app.source = "MVI A,FF\nADI 01\nSTA 2501\nHLT".to_string();
    let count = app.assemble().unwrap();
    assert_eq!(count, 8);
    assert_eq!(app.assembled_count(), 8);
    assert_eq!(app.assembled_byte(0), Some(0x3E));
    assert_eq!(app.assembled_byte(8), None);
    assert_eq!(app.cpu.read_memory(0).unwrap(), 0x3E);
    app.evaluate(1000);
    assert_eq!(app.cpu.accumulator, 0x00);
    assert!(app.cpu.flags.carry);
    app.reset();
    assert_eq!(app.assembled_count(), 0);
    assert_eq!(app.cpu.read_memory(0).unwrap(), 0);
    assert_eq!(app.cpu.accumulator, 0);
}

#[test]
fn application_reports_assembly_errors() {
    let mut app = Application::new();
    app.source = "MVI A".to_string();
    assert!(app.assemble().is_err());
    assert_eq!(app.assembled_count(), 0);
}

#[test]
fn repaint_timeout_is_one_second() {
    assert_eq!(Application::repaint_max_timeout(), 1);
}

#[test]
fn keywords_are_recognized() {
    let language = Language::new();
    assert!(language.is_keyword("mov"));
    assert!(language.is_keyword("hlt"));
    assert!(language.is_keyword("in"));
    assert!(language.is_keyword("nop"));
    assert!(!language.is_keyword("banana"));
    assert!(!language.is_keyword("MOV"));
    assert!(!language.is_keyword(""));
}
