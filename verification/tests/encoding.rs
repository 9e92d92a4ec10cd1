use chip8_asm::{encode, parse_line, process_8XYZ, AsmError, ErrorKind, Field, Instruction};

fn fields(line: &str) -> Vec<Field> {
    parse_line(line, 1).unwrap().fields()
}

fn word(line: &str) -> u16 {
    parse_line(line, 1).unwrap().word()
}

fn kind(line: &str) -> ErrorKind {
    parse_line(line, 1).unwrap_err().kind
}

fn f(width: u8, value: u16) -> Field {
    Field { width, value }
}

fn tokens(words: &[&str]) -> Vec<String> {
    words.iter().map(|word| word.to_string()).collect()
}

#[test]
fn cls_is_a_constant_word() {
    assert_eq!(fields("CLS"), vec![f(16, 0x00E0)]);
    assert_eq!(parse_line("CLS", 1).unwrap().bits(), "0000000011100000");
    assert_eq!(word("CLS"), 0x00E0);
}

#[test]
fn ret_is_a_constant_word() {
    assert_eq!(fields("RET"), vec![f(16, 0x00EE)]);
    assert_eq!(parse_line("RET", 1).unwrap().bits(), "0000000011101110");
    assert_eq!(word("RET"), 0x00EE);
}

#[test]
fn cls_and_ret_take_no_operand() {
    assert_eq!(kind("CLS 1"), ErrorKind::TooManyOperands);
    assert_eq!(kind("RET V0"), ErrorKind::TooManyOperands);
    assert_eq!(kind("CLS "), ErrorKind::TooManyOperands);
}

#[test]
fn sys_takes_an_address() {
    assert_eq!(fields("SYS 291"), vec![f(4, 0x0), f(12, 291)]);
    assert_eq!(word("SYS 291"), 0x0123);
    assert_eq!(kind("SYS"), ErrorKind::TooFewOperands);
    assert_eq!(kind("SYS 1 2"), ErrorKind::TooManyOperands);
}

#[test]
fn jp_takes_an_address() {
    assert_eq!(fields("JP 0"), vec![f(4, 0x1), f(12, 0)]);
    assert_eq!(fields("JP 512"), vec![f(4, 0x1), f(12, 512)]);
    assert_eq!(fields("JP 4095"), vec![f(4, 0x1), f(12, 4095)]);
    assert_eq!(parse_line("JP 512", 1).unwrap().bits(), "0001001000000000");
    assert_eq!(word("JP 4095"), 0x1FFF);
}

#[test]
fn jp_rejects_an_address_of_4096() {
    assert_eq!(kind("JP 4096"), ErrorKind::OutOfRange { operand: 1, bits: 12 });
}

#[test]
fn every_address_up_to_4095_is_encoded_by_jp() {
    for a in 0..=4095u16 {
        assert_eq!(fields(&format!("JP {}", a)), vec![f(4, 0x1), f(12, a)]);
        assert_eq!(word(&format!("JP {}", a)), 0x1000 | a);
    }
}

#[test]
fn jp_with_a_register_is_the_offset_jump() {
    assert_eq!(fields("JP V0, 768"), vec![f(4, 0xB), f(12, 768)]);
    assert_eq!(word("JP V0, 768"), 0xB300);
    assert_eq!(kind("JP 1, 768"), ErrorKind::NotRegister { operand: 1 });
    assert_eq!(kind("JP V0, 4096"), ErrorKind::OutOfRange { operand: 2, bits: 12 });
    assert_eq!(kind("JP"), ErrorKind::TooFewOperands);
    assert_eq!(kind("JP V0, 1, 2"), ErrorKind::TooManyOperands);
}

#[test]
fn jp_with_a_register_encodes_the_address_only() {
    assert_eq!(fields("JP V7, 768"), fields("JP V0, 768"));
    assert_eq!(fields("JP V99, 768"), fields("JP V0, 768"));
}

#[test]
fn call_takes_an_address() {
    assert_eq!(fields("CALL 1365"), vec![f(4, 0x2), f(12, 1365)]);
    assert_eq!(word("CALL 1365"), 0x2555);
    assert_eq!(kind("CALL"), ErrorKind::TooFewOperands);
    assert_eq!(kind("CALL 1 2"), ErrorKind::TooManyOperands);
}

#[test]
fn se_with_a_byte() {
    assert_eq!(fields("SE V3, 255"), vec![f(4, 0x3), f(4, 3), f(8, 255)]);
    assert_eq!(fields("SE V15, 0"), vec![f(4, 0x3), f(4, 15), f(8, 0)]);
    assert_eq!(word("SE V3, 255"), 0x33FF);
}

#[test]
fn se_rejects_a_byte_of_256() {
    assert_eq!(kind("SE V3, 256"), ErrorKind::OutOfRange { operand: 2, bits: 8 });
}

#[test]
fn every_byte_is_encoded_by_se() {
    for x in 0..=15u16 {
        for b in 0..=255u16 {
            assert_eq!(
                fields(&format!("SE V{}, {}", x, b)),
                vec![f(4, 0x3), f(4, x), f(8, b)]
            );
        }
    }
}

#[test]
fn se_with_two_registers() {
    assert_eq!(fields("SE V3, V4"), vec![f(4, 0x5), f(4, 3), f(4, 4), f(4, 0x0)]);
    assert_eq!(word("SE V3, V4"), 0x5340);
}

#[test]
fn sne_with_a_byte_and_with_two_registers() {
    assert_eq!(fields("SNE V10, 17"), vec![f(4, 0x4), f(4, 10), f(8, 17)]);
    assert_eq!(fields("SNE V10, V11"), vec![f(4, 0x9), f(4, 10), f(4, 11), f(4, 0x0)]);
    assert_eq!(word("SNE V10, 17"), 0x4A11);
    assert_eq!(word("SNE V10, V11"), 0x9AB0);
}

#[test]
fn add_register_register() {
    assert_eq!(fields("ADD V1, V2"), vec![f(4, 0x8), f(4, 1), f(4, 2), f(4, 0x4)]);
    assert_eq!(word("ADD V1, V2"), 0x8124);
}

#[test]
fn add_register_byte() {
    assert_eq!(fields("ADD V1, 10"), vec![f(4, 0x7), f(4, 1), f(8, 10)]);
    assert_eq!(word("ADD V1, 10"), 0x710A);
}

#[test]
fn add_is_selected_by_the_shape_of_the_second_operand() {
    assert_ne!(fields("ADD V1, V10"), fields("ADD V1, 10"));
    // The shape decides before any range is checked.
    assert_eq!(kind("ADD V1, V16"), ErrorKind::OutOfRange { operand: 2, bits: 4 });
    assert_eq!(kind("ADD V1, 256"), ErrorKind::OutOfRange { operand: 2, bits: 8 });
}

#[test]
fn add_to_the_index_register() {
    assert_eq!(fields("ADD I, V5"), vec![f(4, 0xF), f(4, 5), f(8, 0x1E)]);
    assert_eq!(word("ADD I, V5"), 0xF51E);
    assert_eq!(kind("ADD I, 5"), ErrorKind::NotRegister { operand: 2 });
}

#[test]
fn register_to_register_operations() {
    assert_eq!(fields("OR V1, V2"), vec![f(4, 0x8), f(4, 1), f(4, 2), f(4, 0x1)]);
    assert_eq!(fields("AND V1, V2"), vec![f(4, 0x8), f(4, 1), f(4, 2), f(4, 0x2)]);
    assert_eq!(fields("XOR V1, V2"), vec![f(4, 0x8), f(4, 1), f(4, 2), f(4, 0x3)]);
    assert_eq!(fields("SUB V1, V2"), vec![f(4, 0x8), f(4, 1), f(4, 2), f(4, 0x5)]);
    assert_eq!(fields("SUBN V1, V2"), vec![f(4, 0x8), f(4, 1), f(4, 2), f(4, 0x7)]);
    assert_eq!(word("XOR V12, V13"), 0x8CD3);
}

#[test]
fn register_to_register_operations_check_their_operands() {
    assert_eq!(kind("OR V1"), ErrorKind::TooFewOperands);
    assert_eq!(kind("OR"), ErrorKind::TooFewOperands);
    assert_eq!(kind("AND V1, V2, V3"), ErrorKind::TooManyOperands);
    assert_eq!(kind("XOR 1, V2"), ErrorKind::NotRegister { operand: 1 });
    assert_eq!(kind("SUB V1, 2"), ErrorKind::NotRegister { operand: 2 });
    assert_eq!(kind("SUBN V16, V2"), ErrorKind::OutOfRange { operand: 1, bits: 4 });
    // The first operand is checked first.
    assert_eq!(kind("SUBN V16, 2"), ErrorKind::OutOfRange { operand: 1, bits: 4 });
}

#[test]
fn process_8xyz_on_tokens() {
    let instruction = process_8XYZ(&tokens(&["XOR", "V4", "V9"]), 1, 0x3).unwrap();
    assert_eq!(instruction.fields(), vec![f(4, 0x8), f(4, 4), f(4, 9), f(4, 0x3)]);
    assert_eq!(
        process_8XYZ(&tokens(&["XOR", "V4"]), 6, 0x3),
        Err(AsmError {
            line: 6,
            mnemonic: "XOR".to_string(),
            kind: ErrorKind::TooFewOperands
        })
    );
    assert_eq!(
        process_8XYZ(&tokens(&[]), 6, 0x3),
        Err(AsmError { line: 6, mnemonic: String::new(), kind: ErrorKind::TooFewOperands })
    );
    assert_eq!(
        process_8XYZ(&tokens(&["XOR", "V4", "V9", "V1"]), 6, 0x3).unwrap_err().kind,
        ErrorKind::TooManyOperands
    );
}

#[test]
fn shifts() {
    assert_eq!(fields("SHR V6"), vec![f(4, 0x8), f(4, 6), f(8, 0xF6)]);
    assert_eq!(fields("SHL V6"), vec![f(4, 0x8), f(4, 6), f(8, 0xFE)]);
    assert_eq!(word("SHR V6"), 0x86F6);
    assert_eq!(word("SHL V6"), 0x86FE);
    assert_eq!(kind("SHR"), ErrorKind::TooFewOperands);
    assert_eq!(kind("SHL V1, V2"), ErrorKind::TooManyOperands);
    assert_eq!(kind("SHR 6"), ErrorKind::NotRegister { operand: 1 });
}

#[test]
fn rnd_takes_a_register_and_a_byte() {
    assert_eq!(fields("RND V2, 170"), vec![f(4, 0xC), f(4, 2), f(8, 170)]);
    assert_eq!(word("RND V2, 170"), 0xC2AA);
    assert_eq!(kind("RND V2, V3"), ErrorKind::NotNumber { operand: 2, bits: 8 });
    assert_eq!(kind("RND V2"), ErrorKind::TooFewOperands);
    assert_eq!(kind("RND V2, 1, 2"), ErrorKind::TooManyOperands);
}

#[test]
fn drw_takes_two_registers_and_a_nibble() {
    assert_eq!(fields("DRW V1, V2, 15"), vec![f(4, 0xD), f(4, 1), f(4, 2), f(4, 15)]);
    assert_eq!(word("DRW V1, V2, 5"), 0xD125);
    assert_eq!(kind("DRW V1, V2, 16"), ErrorKind::OutOfRange { operand: 3, bits: 4 });
    assert_eq!(kind("DRW V1, V2, V3"), ErrorKind::NotNumber { operand: 3, bits: 4 });
    assert_eq!(kind("DRW V1, V2"), ErrorKind::TooFewOperands);
    assert_eq!(kind("DRW V1, V2, 3, 4"), ErrorKind::TooManyOperands);
}

#[test]
fn key_skips() {
    assert_eq!(fields("SKP V9"), vec![f(4, 0xE), f(4, 9), f(8, 0x9E)]);
    assert_eq!(fields("SKNP V9"), vec![f(4, 0xE), f(4, 9), f(8, 0xA1)]);
    assert_eq!(word("SKP V9"), 0xE99E);
    assert_eq!(word("SKNP V9"), 0xE9A1);
    assert_eq!(kind("SKP"), ErrorKind::TooFewOperands);
    assert_eq!(kind("SKNP V1, V2"), ErrorKind::TooManyOperands);
}

#[test]
fn ld_index_from_register_and_from_address() {
    assert_eq!(fields("LD I, V3"), vec![f(4, 0xF), f(4, 3), f(8, 0x55)]);
    assert_eq!(fields("LD I, 300"), vec![f(4, 0xA), f(12, 300)]);
    assert_eq!(word("LD I, V3"), 0xF355);
    assert_eq!(word("LD I, 300"), 0xA12C);
    assert_eq!(kind("LD I, 4096"), ErrorKind::OutOfRange { operand: 2, bits: 12 });
}

#[test]
fn ld_to_a_keyword() {
    assert_eq!(fields("LD DT, V4"), vec![f(4, 0xF), f(4, 4), f(8, 0x15)]);
    assert_eq!(fields("LD ST, V4"), vec![f(4, 0xF), f(4, 4), f(8, 0x18)]);
    assert_eq!(fields("LD F, V4"), vec![f(4, 0xF), f(4, 4), f(8, 0x29)]);
    assert_eq!(fields("LD B, V4"), vec![f(4, 0xF), f(4, 4), f(8, 0x33)]);
    assert_eq!(kind("LD DT, 4"), ErrorKind::NotRegister { operand: 2 });
}

#[test]
fn ld_to_a_register() {
    assert_eq!(fields("LD V1, V2"), vec![f(4, 0x8), f(4, 1), f(4, 2), f(4, 0x0)]);
    assert_eq!(fields("LD V1, DT"), vec![f(4, 0xF), f(4, 1), f(8, 0x07)]);
    assert_eq!(fields("LD V1, I"), vec![f(4, 0xF), f(4, 1), f(8, 0x65)]);
    assert_eq!(fields("LD V1, K"), vec![f(4, 0xF), f(4, 1), f(8, 0x0A)]);
    assert_eq!(fields("LD V1, 200"), vec![f(4, 0x6), f(4, 1), f(8, 200)]);
    assert_eq!(word("LD V1, 200"), 0x61C8);
    assert_eq!(kind("LD V1, 256"), ErrorKind::OutOfRange { operand: 2, bits: 8 });
    assert_eq!(kind("LD V1, ST"), ErrorKind::NotNumber { operand: 2, bits: 8 });
}

#[test]
fn ld_rejects_other_first_operands() {
    assert_eq!(kind("LD K, V1"), ErrorKind::NotRegister { operand: 1 });
    assert_eq!(kind("LD 1, V1"), ErrorKind::NotRegister { operand: 1 });
    assert_eq!(kind("LD V1"), ErrorKind::TooFewOperands);
    assert_eq!(kind("LD V1, V2, V3"), ErrorKind::TooManyOperands);
}

#[test]
fn unknown_mnemonic_is_reported_with_line_and_name() {
    assert_eq!(
        parse_line("FOO V0, V1", 7),
        Err(AsmError { line: 7, mnemonic: "FOO".to_string(), kind: ErrorKind::UnknownMnemonic })
    );
}

#[test]
fn mnemonics_are_upper_case_only() {
    assert_eq!(kind("add V1, V2"), ErrorKind::UnknownMnemonic);
    assert_eq!(kind("Cls"), ErrorKind::UnknownMnemonic);
    assert_eq!(kind("JPX 1"), ErrorKind::UnknownMnemonic);
}

#[test]
fn too_few_operands_are_reported_before_any_operand_is_read() {
    assert_eq!(
        parse_line("ADD V0", 3),
        Err(AsmError { line: 3, mnemonic: "ADD".to_string(), kind: ErrorKind::TooFewOperands })
    );
    assert_eq!(kind("ADD nonsense"), ErrorKind::TooFewOperands);
    assert_eq!(kind("ADD V99"), ErrorKind::TooFewOperands);
}

#[test]
fn too_many_operands_are_reported_before_any_operand_is_read() {
    assert_eq!(kind("ADD x, y, z"), ErrorKind::TooManyOperands);
}

#[test]
fn a_line_without_mnemonic_has_too_few_operands() {
    assert_eq!(
        parse_line("", 2),
        Err(AsmError { line: 2, mnemonic: String::new(), kind: ErrorKind::TooFewOperands })
    );
    assert_eq!(kind(" ADD V1, V2"), ErrorKind::TooFewOperands);
    assert_eq!(kind(","), ErrorKind::TooFewOperands);
    assert_eq!(encode(&tokens(&[]), 1).unwrap_err().kind, ErrorKind::TooFewOperands);
}

#[test]
fn irregular_spacing_gives_empty_operands() {
    assert_eq!(kind("ADD  V1, V2"), ErrorKind::TooManyOperands);
    assert_eq!(kind("SHR "), ErrorKind::NotRegister { operand: 1 });
    assert_eq!(kind("JP "), ErrorKind::NotNumber { operand: 1, bits: 12 });
}

#[test]
fn commas_are_no_separators_by_themselves() {
    assert_eq!(kind("ADD V1,V2"), ErrorKind::TooFewOperands);
    assert_eq!(fields("A,DD V1 V,2"), fields("ADD V1, V2"));
}

#[test]
fn encode_takes_the_tokens_of_a_line() {
    let instruction = encode(&tokens(&["DRW", "V1", "V2", "3"]), 1).unwrap();
    assert_eq!(instruction.fields(), vec![f(4, 0xD), f(4, 1), f(4, 2), f(4, 3)]);
    assert_eq!(
        encode(&tokens(&["DRW", "V1", "V2", "x"]), 12),
        Err(AsmError {
            line: 12,
            mnemonic: "DRW".to_string(),
            kind: ErrorKind::NotNumber { operand: 3, bits: 4 }
        })
    );
}

#[test]
fn every_accepted_line_fills_sixteen_bits() {
    let lines = [
        "SYS 1", "CLS", "RET", "JP 1", "JP V0, 1", "CALL 1", "SE V1, 1", "SE V1, V2",
        "SNE V1, 1", "SNE V1, V2", "ADD I, V1", "ADD V1, V2", "ADD V1, 1", "OR V1, V2",
        "AND V1, V2", "XOR V1, V2", "SUB V1, V2", "SUBN V1, V2", "SHR V1", "SHL V1",
        "RND V1, 1", "DRW V1, V2, 3", "SKP V1", "SKNP V1", "LD I, V1", "LD I, 1", "LD DT, V1",
        "LD ST, V1", "LD F, V1", "LD B, V1", "LD V1, V2", "LD V1, DT", "LD V1, I", "LD V1, K",
        "LD V1, 1",
    ];
    for line in lines {
        let instruction = parse_line(line, 1).unwrap();
        let total: u32 = instruction.fields().iter().map(|field| field.width as u32).sum();
        assert_eq!(total, 16, "{}", line);
        let bits = instruction.bits();
        assert_eq!(bits.len(), 16, "{}", line);
        assert_eq!(u16::from_str_radix(&bits, 2).unwrap(), instruction.word(), "{}", line);
    }
}

#[test]
fn the_line_number_only_labels_the_error() {
    assert_eq!(parse_line("ADD V1, V2", 1), parse_line("ADD V1, V2", 500));
    assert_eq!(parse_line("NOP", 1).unwrap_err().line, 1);
    assert_eq!(parse_line("NOP", u64::MAX).unwrap_err().line, u64::MAX);
}

#[test]
fn instructions_are_made_of_fields_that_fill_sixteen_bits() {
    assert!(Instruction::new(vec![f(4, 1), f(12, 512)]).is_some());
    assert!(Instruction::new(vec![f(16, 0xFFFF)]).is_some());
    assert_eq!(Instruction::new(vec![f(4, 1), f(12, 512)]), parse_line("JP 512", 1).ok());
    assert!(Instruction::new(vec![]).is_none());
    assert!(Instruction::new(vec![f(4, 1), f(8, 2)]).is_none());
    assert!(Instruction::new(vec![f(4, 1), f(12, 2), f(4, 3)]).is_none());
    assert!(Instruction::new(vec![f(4, 16), f(12, 2)]).is_none());
    assert!(Instruction::new(vec![f(8, 256), f(8, 2)]).is_none());
    assert!(Instruction::new(vec![f(12, 4096), f(4, 2)]).is_none());
    assert!(Instruction::new(vec![f(5, 1), f(11, 2)]).is_none());
    assert!(Instruction::new(vec![f(16, 1), f(16, 2)]).is_none());
}

#[test]
fn a_copy_of_an_instruction_is_equal_to_it() {
    let instruction = parse_line("DRW V1, V2, 3", 1).unwrap();
    assert_eq!(instruction.clone(), instruction);
}
