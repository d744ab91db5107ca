use emulator_8085::cpu::Cpu;
use emulator_8085::execute_code;

fn run_to_end(cpu: &mut Cpu, assembled_count: usize) {
    while let Some(pc) = cpu.eval() {
        if pc as usize >= assembled_count {
            break;
        }
    }
}

#[test]
fn test_add_8_bits() {
    let source = r#"
    LXI H, 2501H  ; "Get address of first number in H-L pair. Now H-L points to 2501H"
    MOV A, M      ; "Get first operand in accumulator"
    INX H         ; "Increment content of H-L pair. Now, H-L points 2502H"
    ADD M         ; "Add first and second operand"
    INX H         ; "H-L points 4002H"
    MOV M, A      ; "Store result at 2503H"
    HLT           ; "Stop"
    "#;
    let (mut cpu, assembled_count) = execute_code(source).unwrap();
    cpu.write_memory(0x2501, 0x99).unwrap();
    cpu.write_memory(0x2502, 0x39).unwrap();

    run_to_end(&mut cpu, assembled_count);
    assert_eq!(cpu.accumulator, 0xD2);
    assert_eq!(cpu.read_memory(0x2503).unwrap(), 0xD2);
}

#[test]
fn test_add_16_bits() {
    let source = r#"
    ;(2501H) = 15H
    ;(2502H) = 1CH
    ;(2503H) = B7H
    ;(2504H) = 5AH
    ;
    ;Result = 1C15 + 5AB7H = 76CCH
    ;
    ;(2505H) = CCH
    ;(2506H) = 76H
    LHLD 2501H   ; "Get 1st 16-bit number in H-L pair"
    XCHG         ; "Save 1st 16-bit number in DE"
    LHLD 2503H   ; "Get 2nd 16-bit number in H-L pair"
    MOV A, E     ; "Get lower byte of the 1st number"
    ADD L        ; "Add lower byte of the 2nd number"
    MOV L, A     ; "Store result in L-register"
    MOV A, D     ; "Get higher byte of the 1st number"
    ADC H        ; "Add higher byte of the 2nd number with CARRY"
    MOV H, A     ; "Store result in H-register"
    SHLD 2505; "Store 16-bit result in memory locations 2505H and 2506H"
    HLT          ; "Stop"
    "#;

    let (mut cpu, assembled_count) = execute_code(source).unwrap();
    cpu.write_memory(0x2501, 0x15).unwrap();
    cpu.write_memory(0x2502, 0x1C).unwrap();
    cpu.write_memory(0x2503, 0xB7).unwrap();
    cpu.write_memory(0x2504, 0x5A).unwrap();

    run_to_end(&mut cpu, assembled_count);
    assert_eq!(cpu.read_memory(0x2505).unwrap(), 0xCC);
    assert_eq!(cpu.read_memory(0x2506).unwrap(), 0x76);
}

#[test]
fn test_large_number() {
    let source = r#"
;Find the largest number in a block of data.
;The length of the block is in memory location 2200H and the block itself starts from memory location 2201H.
;Store the largest number in memory location 2300H. Assume that the numbers in the block are all 8-bit unsigned binary numbers.

LXI H,2200H             ; Set pointer for array.
MOV B, M                ; Load the Count.
INX H
MOV A, M                ; Set 1st element as largest data.
DCR B                   ; Decrement the count.
LOOP: INX H
CMP  M                  ; If A- reg > M go to AHEAD
JNC AHEAD
MOV A, M                ; Set the new value as largest.
AHEAD: DCR  B
JNZ LOOP                ; Repeat comparisons till count = 0.
STA 2300H               ; Store the largest value at 2300.
HLT                     ; Terminate program execution.
"#;

    let (mut cpu, assembled_count) = execute_code(source).unwrap();
    cpu.write_memory(0x2200, 0x04).unwrap();
    cpu.write_memory(0x2201, 0x01).unwrap();
    cpu.write_memory(0x2202, 0x05).unwrap();
    cpu.write_memory(0x2203, 0x07).unwrap();
    cpu.write_memory(0x2204, 0x08).unwrap();

    run_to_end(&mut cpu, assembled_count);
    assert_eq!(cpu.read_memory(0x2204).unwrap(), 0x08);
}

#[test]
fn subtract_8_bits() {
    let source = r#"
;(2501 H) = 49H
;(2502 H) = 32H
;Result (2503 H) = 49H - 32H = 17H
LXI H, 2501H   ;  "Get address of first number in H-L pair. Now H-L points to 2501H"
MOV A, M       ;  "Get first operand in accumulator"
INX H          ;  "Increment content of H-L pair. Now, H-L points 2502H"
SUB M          ;  "Subtract first to second operand"
INX H          ;  "H-L points 4002H"
MOV M, A       ;  "Store result at 2503H"
HLT            ;  "Stop"
 "#;
    let (mut cpu, assembled_count) = execute_code(source).unwrap();
    cpu.write_memory(0x2501, 0x49).unwrap();
    cpu.write_memory(0x2502, 0x32).unwrap();

    run_to_end(&mut cpu, assembled_count);
    assert_eq!(cpu.read_memory(0x2503).unwrap(), 0x17);
}

#[test]
fn add_16_bits_with_double_register_add() {
    // the same two 16-bit numbers, added with the pair-wide add: LHLD 2501 /
    // XCHG / LHLD 2503 / DAD D (raw byte 0x19) / SHLD 2505 / HLT
    let bytes = [
        0x2A, 0x01, 0x25, 0xEB, 0x2A, 0x03, 0x25, 0x19, 0x22, 0x05, 0x25, 0x76,
    ];
    let mut cpu = Cpu::new();
    for (i, b) in bytes.iter().enumerate() {
        cpu.write_memory(i, *b).unwrap();
    }
    cpu.write_memory(0x2501, 0x15).unwrap();
    cpu.write_memory(0x2502, 0x1C).unwrap();
    cpu.write_memory(0x2503, 0xB7).unwrap();
    cpu.write_memory(0x2504, 0x5A).unwrap();
    run_to_end(&mut cpu, bytes.len());
    assert_eq!(cpu.read_memory(0x2505).unwrap(), 0xCC);
    assert_eq!(cpu.read_memory(0x2506).unwrap(), 0x76);
}

#[test]
fn execute_code_reports_assembly_failures() {
    match execute_code("MVI A") {
        Err(emulator_8085::AssemblyError::Parse(e)) => {
            assert_eq!(e, emulator_8085::parser::ParseError::MissingToken);
        }
        other => panic!("expected a parse error, got {:?}", other),
    }
    assert!(execute_code("MVI A,&&").is_err());
    assert!(execute_code("JNZ NOWHERE").is_err());
}
