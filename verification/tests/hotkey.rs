use mebal::error::MebalError;
use mebal::hotkey::{key_code_from_name, parse_hotkey, parse_key_code, parse_modifier, KeyCode, Modifiers};

#[test]
fn test_parse_hotkey_ok() {
    assert!(parse_hotkey("F9").is_ok());
    assert!(parse_hotkey("Ctrl+F9").is_ok());
    assert!(parse_hotkey("Ctrl+Shift+R").is_ok());
}

#[test]
fn test_parse_simple_hotkey() {
    let hotkey = parse_hotkey("F9").unwrap();
    assert_eq!(hotkey.key_code, KeyCode::F9);
    assert!(hotkey.modifiers.is_empty());
}

#[test]
fn test_parse_with_modifier() {
    let hotkey = parse_hotkey("Ctrl+F9").unwrap();
    assert_eq!(hotkey.key_code, KeyCode::F9);
    assert!(hotkey.modifiers.contains(Modifiers::CONTROL));
}

#[test]
fn test_parse_multiple_modifiers() {
    let hotkey = parse_hotkey("Ctrl+Shift+R").unwrap();
    assert_eq!(hotkey.key_code, KeyCode::KeyR);
    assert!(hotkey.modifiers.contains(Modifiers::CONTROL));
    assert!(hotkey.modifiers.contains(Modifiers::SHIFT));
}

#[test]
fn test_parse_special_keys() {
    assert!(parse_hotkey("Space").is_ok());
    assert!(parse_hotkey("Escape").is_ok());
    assert!(parse_hotkey("Tab").is_ok());
}

#[test]
fn test_invalid_key() {
    assert!(parse_hotkey("InvalidKey").is_err());
}

#[test]
fn parse_reports_unknown_key_and_modifier() {
    assert_eq!(
        parse_hotkey("Ctrl+Foo"),
        Err(MebalError::Hotkey("Unknown key code: Foo".to_string()))
    );
    assert_eq!(
        parse_hotkey("Bogus+F9"),
        Err(MebalError::Hotkey("Unknown modifier: Bogus".to_string()))
    );
    // The key is checked before the modifiers.
    assert_eq!(
        parse_hotkey("Bogus+Nope"),
        Err(MebalError::Hotkey("Unknown key code: Nope".to_string()))
    );
    // The first unknown modifier is reported.
    assert_eq!(
        parse_hotkey("Alt+First+Second+F1"),
        Err(MebalError::Hotkey("Unknown modifier: First".to_string()))
    );
    assert!(parse_hotkey("").is_err());
    assert!(parse_hotkey("+F9").is_err());
}

#[test]
fn parse_trims_and_ignores_case() {
    let hotkey = parse_hotkey("  cTrL +  alt+ page_down ").unwrap();
    assert_eq!(hotkey.key_code, KeyCode::PageDown);
    assert_eq!(hotkey.modifiers.bits, Modifiers::CONTROL | Modifiers::ALT);
    let hotkey = parse_hotkey("cmd+win+Super+Command+Windows+S").unwrap();
    assert_eq!(hotkey.modifiers.bits, Modifiers::META);
    assert_eq!(hotkey.key_code, KeyCode::KeyS);
    // Unicode lower-casing: the Kelvin sign lower-cases to 'k'.
    let hotkey = parse_hotkey("\u{212A}").unwrap();
    assert_eq!(hotkey.key_code, KeyCode::KeyK);
    // Non-breaking spaces are white space to trim.
    let hotkey = parse_hotkey("\u{a0}Esc\u{3000}").unwrap();
    assert_eq!(hotkey.key_code, KeyCode::Escape);
}

#[test]
fn key_names_and_aliases() {
    assert_eq!(key_code_from_name("f24"), Some(KeyCode::F24));
    assert_eq!(key_code_from_name("digit7"), Some(KeyCode::Digit7));
    assert_eq!(key_code_from_name("7"), Some(KeyCode::Digit7));
    assert_eq!(key_code_from_name("z"), Some(KeyCode::KeyZ));
    assert_eq!(key_code_from_name("return"), Some(KeyCode::Enter));
    assert_eq!(key_code_from_name("arrowleft"), Some(KeyCode::ArrowLeft));
    assert_eq!(key_code_from_name("num3"), Some(KeyCode::Numpad3));
    assert_eq!(key_code_from_name("~"), Some(KeyCode::Backquote));
    assert_eq!(key_code_from_name("\\"), Some(KeyCode::Backslash));
    assert_eq!(key_code_from_name("\""), Some(KeyCode::Quote));
    assert_eq!(key_code_from_name("?"), Some(KeyCode::Slash));
    assert_eq!(key_code_from_name("F9"), None);
    assert_eq!(key_code_from_name("f25"), None);
}

#[test]
fn modifier_names() {
    assert_eq!(parse_modifier("Option").unwrap().bits, Modifiers::ALT);
    assert_eq!(parse_modifier("CONTROL").unwrap().bits, Modifiers::CONTROL);
    assert_eq!(parse_modifier("shift").unwrap().bits, Modifiers::SHIFT);
    assert_eq!(
        parse_modifier("hyper"),
        Err(MebalError::Hotkey("Unknown modifier: hyper".to_string()))
    );
}

#[test]
fn single_key_has_no_modifiers() {
    for name in ["a", "F12", " home ", "Numpad0", "/"] {
        let hotkey = parse_hotkey(name).unwrap();
        assert!(hotkey.modifiers.is_empty());
    }
}

#[test]
fn key_and_modifier_names_are_case_insensitive_on_ascii() {
    for name in ["f9", "F9", "space", "SPACE", "Escape", "a", "A"] {
        let upper = parse_key_code(&name.to_ascii_uppercase());
        let lower = parse_key_code(&name.to_ascii_lowercase());
        assert_eq!(parse_key_code(name).ok(), upper.ok());
        assert_eq!(parse_key_code(name).ok(), lower.ok());
    }
    assert_eq!(parse_modifier("CTRL").unwrap().bits, parse_modifier("ctrl").unwrap().bits);
}
