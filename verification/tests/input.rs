use verco::input::{key_to_char, read_line, to_ascii_uppercase, Key, KeyCode, LineOutcome};

fn key(character: Option<char>, shift: bool, control: bool, alt: bool) -> Key {
    let code = match character {
        Some(c) => KeyCode::Char(c),
        None => KeyCode::Enter,
    };
    Key { code, shift, control, alt }
}

#[test]
fn upper_case_agrees_with_std_on_every_ascii_character_and_beyond() {
    for code in 0u32..0x3000 {
        if let Some(c) = char::from_u32(code) {
            assert_eq!(to_ascii_uppercase(c), c.to_ascii_uppercase());
        }
    }
}

#[test]
fn plain_key_types_its_character() {
    assert_eq!(key_to_char(key(Some('s'), false, false, false)), Some('s'));
    assert_eq!(key_to_char(key(Some('S'), false, false, false)), Some('S'));
    assert_eq!(key_to_char(key(Some('7'), false, false, false)), Some('7'));
}

#[test]
fn shift_alone_types_the_upper_case_form() {
    assert_eq!(key_to_char(key(Some('d'), true, false, false)), Some('D'));
    assert_eq!(key_to_char(key(Some('a'), true, false, false)), Some('A'));
    assert_eq!(key_to_char(key(Some('z'), true, false, false)), Some('Z'));
    assert_eq!(key_to_char(key(Some('D'), true, false, false)), Some('D'));
    assert_eq!(key_to_char(key(Some('1'), true, false, false)), Some('1'));
    assert_eq!(key_to_char(key(Some('é'), true, false, false)), Some('é'));
}

#[test]
fn other_modifiers_type_nothing() {
    assert_eq!(key_to_char(key(Some('r'), false, true, false)), None);
    assert_eq!(key_to_char(key(Some('r'), false, false, true)), None);
    assert_eq!(key_to_char(key(Some('r'), true, true, false)), None);
    assert_eq!(key_to_char(key(Some('r'), true, false, true)), None);
}

#[test]
fn a_key_without_a_character_types_nothing() {
    assert_eq!(key_to_char(key(None, false, false, false)), None);
    assert_eq!(key_to_char(key(None, true, false, false)), None);
}

#[test]
fn a_line_that_was_read_is_passed_on() {
    assert_eq!(read_line(LineOutcome::Line("fix the bug".to_string())), Ok("fix the bug".to_string()));
}

#[test]
fn interrupt_and_end_of_input_give_an_empty_line() {
    assert_eq!(read_line(LineOutcome::Interrupted), Ok(String::new()));
    assert_eq!(read_line(LineOutcome::Eof), Ok(String::new()));
}

#[test]
fn another_failure_is_passed_on() {
    assert_eq!(read_line(LineOutcome::Failed("broken pipe".to_string())), Err("broken pipe".to_string()));
}
