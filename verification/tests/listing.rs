use chip8_asm::{assemble, AsmError, ErrorKind};

fn listing(lines: &[&str]) -> Vec<String> {
    lines.iter().map(|line| line.to_string()).collect()
}

#[test]
fn a_listing_is_assembled_line_by_line() {
    let mut out = String::new();
    let result = assemble(&listing(&["CLS", "JP 512", "ADD V1, V2"]), &mut out);
    assert_eq!(result, Ok(()));
    assert_eq!(out, "000000001110000000010010000000001000000100100100");
}

#[test]
fn an_empty_listing_writes_nothing() {
    let mut out = String::new();
    assert_eq!(assemble(&Vec::new(), &mut out), Ok(()));
    assert_eq!(out, "");
}

#[test]
fn the_output_is_appended_to_what_is_there() {
    let mut out = String::from("1111");
    assert_eq!(assemble(&listing(&["RET"]), &mut out), Ok(()));
    assert_eq!(out, "11110000000011101110");
}

#[test]
fn the_first_rejected_line_stops_the_run() {
    let mut out = String::new();
    let result = assemble(&listing(&["CLS", "JP 4096", "RET", "FOO"]), &mut out);
    assert_eq!(
        result,
        Err(AsmError {
            line: 2,
            mnemonic: "JP".to_string(),
            kind: ErrorKind::OutOfRange { operand: 1, bits: 12 }
        })
    );
    assert_eq!(out, "0000000011100000");
}

#[test]
fn nothing_is_written_for_a_rejected_line() {
    let mut out = String::new();
    let result = assemble(&listing(&["FOO V0, V1"]), &mut out);
    assert_eq!(result.unwrap_err().kind, ErrorKind::UnknownMnemonic);
    assert_eq!(out, "");

    // The first operand is good and the second is not: no field is written.
    let mut out = String::new();
    let result = assemble(&listing(&["SE V1, 999"]), &mut out);
    assert_eq!(result.unwrap_err().kind, ErrorKind::OutOfRange { operand: 2, bits: 8 });
    assert_eq!(out, "");

    let mut out = String::new();
    let result = assemble(&listing(&["ADD V0"]), &mut out);
    assert_eq!(result.unwrap_err().kind, ErrorKind::TooFewOperands);
    assert_eq!(out, "");
}

#[test]
fn lines_are_numbered_from_one() {
    let mut out = String::new();
    assert_eq!(assemble(&listing(&["NOP"]), &mut out).unwrap_err().line, 1);
    let mut out = String::new();
    assert_eq!(assemble(&listing(&["CLS", "CLS", "CLS", ""]), &mut out).unwrap_err().line, 4);
    assert_eq!(out.len(), 48);
}

#[test]
fn the_output_holds_sixteen_digits_for_each_line() {
    let lines = listing(&["SYS 1", "LD V1, 7", "DRW V1, V2, 3", "SKP V4", "LD I, 300"]);
    let mut out = String::new();
    assert_eq!(assemble(&lines, &mut out), Ok(()));
    assert_eq!(out.len(), 16 * lines.len());
    assert!(out.chars().all(|c| c == '0' || c == '1'));
}
