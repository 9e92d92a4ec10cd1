use chip8_asm::tokenize;

#[test]
fn commas_are_dropped_and_spaces_split() {
    assert_eq!(tokenize("ADD V1, V2"), vec!["ADD", "V1", "V2"]);
}

#[test]
fn a_comma_alone_joins_its_neighbours() {
    assert_eq!(tokenize("LD I,V3"), vec!["LD", "IV3"]);
}

#[test]
fn repeated_spaces_give_empty_tokens() {
    assert_eq!(tokenize("ADD  V1"), vec!["ADD", "", "V1"]);
    assert_eq!(tokenize(" CLS"), vec!["", "CLS"]);
    assert_eq!(tokenize("CLS "), vec!["CLS", ""]);
}

#[test]
fn an_empty_line_has_one_empty_token() {
    assert_eq!(tokenize(""), vec![""]);
    assert_eq!(tokenize(",,"), vec![""]);
}

#[test]
fn characters_of_several_bytes_are_kept_whole() {
    assert_eq!(tokenize("é,ü ß"), vec!["éü", "ß"]);
}

#[test]
fn the_characters_of_a_string() {
    assert_eq!(chip8_asm::token::chars_of("V1é"), vec!['V', '1', 'é']);
    assert_eq!(chip8_asm::token::chars_of(""), Vec::<char>::new());
}

#[test]
fn a_word_is_spelled_letter_for_letter() {
    let spells = chip8_asm::token::spells;
    assert!(spells(&['D', 'T'], "DT"));
    assert!(spells(&[], ""));
    assert!(!spells(&['D'], "DT"));
    assert!(!spells(&['D', 'T', 'T'], "DT"));
    assert!(!spells(&['d', 't'], "DT"));
    assert!(!spells(&[], "I"));
    assert!(!spells(&['I'], ""));
}

#[test]
fn tokens_joined_with_spaces_are_the_line_without_commas() {
    for line in ["ADD V1, V2", "  ,a,, b  ,", "", " ", ",", "LD I,V3", "x  y"] {
        let tokens = tokenize(line);
        assert!(tokens.iter().all(|token| !token.contains(' ') && !token.contains(',')));
        assert_eq!(tokens.join(" "), line.replace(',', ""), "{:?}", line);
    }
}
