use emulator_8085::cpu::Registers;
use emulator_8085::parser::{parse, parse_instruction, Ins, Instruction, ParseError};
use emulator_8085::token::{tokenize, Token};

fn parse_code(code: &str) -> Result<Vec<Instruction>, ParseError> {
    let tokens = tokenize(code).unwrap();
    parse(tokens)
}

#[test]
fn parser_test_loop() {
    let code = r#"
            LXI H,2050H
            MVI B,01H
            MVI C,0AH
            X: MOV M,B
        "#;
    let instructions = parse_code(code);
    assert_eq!(
        instructions.unwrap(),
        vec![
            Instruction { label: None, ins: Ins::Lxi(Registers::RegH, 0x2050) },
            Instruction { label: None, ins: Ins::Mvi(Registers::RegB, 0x01) },
            Instruction { label: None, ins: Ins::Mvi(Registers::RegC, 0x0A) },
            Instruction { label: Some("X".to_string()), ins: Ins::Mov(Registers::RegM, Registers::RegB) },
        ]
    );
}

#[test]
fn test_mvi() {
    let tokens = tokenize(
        r#"MVI A,FF
            "#,
    )
    .unwrap();
    assert_eq!(tokens[0], Token::Word("MVI".to_string()));
    assert_eq!(tokens[1], Token::Register(Registers::RegA));
    assert_eq!(tokens[2], Token::Number(0xFF));
    assert_eq!(tokens.len(), 3);
}

#[test]
fn test_mov() {
    let tokens = tokenize(
        r#"MOV A,B
            "#,
    )
    .unwrap();
    assert_eq!(tokens[0], Token::Word("MOV".to_string()));
    assert_eq!(tokens[1], Token::Register(Registers::RegA));
    assert_eq!(tokens[2], Token::Register(Registers::RegB));
    assert_eq!(tokens.len(), 3);
}

#[test]
fn test_lxi() {
    let tokens = tokenize(r#"LXI 2000"#).unwrap();
    assert_eq!(tokens[0], Token::Word("LXI".to_string()));
    assert_eq!(tokens[1], Token::Address(0x2000));
    assert_eq!(tokens.len(), 2);
}

#[test]
fn test_comment() {
    let tokens = tokenize(
        r#"; Hello this is dibash
            "#,
    )
    .unwrap();
    assert_eq!(tokens, Vec::<Token>::new());
}

#[test]
fn label_tokens() {
    let tokens = tokenize("LOOP: INX H").unwrap();
    assert_eq!(
        tokens,
        vec![
            Token::Label("LOOP".to_string()),
            Token::Word("INX".to_string()),
            Token::Register(Registers::RegH),
        ]
    );
}

#[test]
fn vocabulary_edge_cases() {
    // the words true and false are their own tokens
    assert_eq!(
        tokenize("true false").unwrap(),
        vec![Token::Bool(true), Token::Bool(false)]
    );
    // two uppercase hexadecimal letters read as a byte literal, not a word
    assert_eq!(tokenize("AB").unwrap(), vec![Token::Number(0xAB)]);
    // a two-letter word with a letter beyond F stays a word
    assert_eq!(tokenize("DI").unwrap(), vec![Token::Word("DI".to_string())]);
    // a single register letter is a register token; another letter is a word
    assert_eq!(tokenize("M").unwrap(), vec![Token::Register(Registers::RegM)]);
    assert_eq!(tokenize("X").unwrap(), vec![Token::Word("X".to_string())]);
    // an address literal followed by a register letter, as in 2501H
    assert_eq!(
        tokenize("2501H").unwrap(),
        vec![Token::Address(0x2501), Token::Register(Registers::RegH)]
    );
}

#[test]
fn lexical_error_reports_text_and_position() {
    let err = tokenize("MVI A,@@").unwrap_err();
    assert_eq!(err.text, "@@");
    assert_eq!(err.pos, 6);
}

#[test]
fn lexical_error_on_stray_digit() {
    let err = tokenize("ADI 123").unwrap_err();
    assert_eq!(err.text, "3");
    assert_eq!(err.pos, 6);
}

#[test]
fn unexpected_token_error() {
    let r = parse_code("MVI A,B");
    assert_eq!(
        r,
        Err(ParseError::UnexpectedToken(Token::Register(Registers::RegB)))
    );
}

#[test]
fn missing_token_error() {
    let r = parse_code("MVI A");
    assert_eq!(r, Err(ParseError::MissingToken));
}

#[test]
fn unimplemented_mnemonic_error() {
    let r = parse_code("NOP");
    assert_eq!(r, Err(ParseError::UnimplementedMnemonic("NOP".to_string())));
}

#[test]
fn parse_instruction_consumes_operands() {
    let tokens = tokenize("B,01").unwrap();
    let mut pos: usize = 0;
    let instr = parse_instruction("MVI", &tokens, &mut pos).unwrap();
    assert_eq!(instr, Instruction { label: None, ins: Ins::Mvi(Registers::RegB, 0x01) });
    assert_eq!(pos, 2);
}

#[test]
fn jump_targets_take_addresses_and_labels() {
    let instrs = parse_code("JMP 2050\nJNC AHEAD\nAHEAD: HLT").unwrap();
    assert_eq!(instrs.len(), 3);
    assert_eq!(
        instrs[0],
        Instruction {
            label: None,
            ins: Ins::Jmp(emulator_8085::parser::JumpTarget::Address(0x2050))
        }
    );
    assert_eq!(
        instrs[1],
        Instruction {
            label: None,
            ins: Ins::Jnc(emulator_8085::parser::JumpTarget::Label("AHEAD".to_string()))
        }
    );
    assert_eq!(instrs[2], Instruction { label: Some("AHEAD".to_string()), ins: Ins::Hlt });
}
