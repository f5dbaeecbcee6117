//! Keys and what they send.

use vmux::input::{
    encode_key_spec, encode_key_specs, key_to_input, parse_key_binding, KeyCode, KeyError,
    KeyModifiers,
};

const CONTROL: KeyModifiers = KeyModifiers { shift: false, alt: false, control: true };
const SHIFT: KeyModifiers = KeyModifiers { shift: true, alt: false, control: false };
const ALT: KeyModifiers = KeyModifiers { shift: false, alt: true, control: false };

#[test]
fn maps_common_navigation_keys_to_escape_sequences() {
    assert_eq!(
        key_to_input(KeyCode::Left, KeyModifiers::empty()).as_deref(),
        Some("\x1b[D")
    );
    assert_eq!(
        key_to_input(KeyCode::Right, CONTROL).as_deref(),
        Some("\x1b[1;5C")
    );
    assert_eq!(
        key_to_input(KeyCode::Delete, SHIFT).as_deref(),
        Some("\x1b[3;2~")
    );
    assert_eq!(
        key_to_input(KeyCode::BackTab, KeyModifiers::empty()).as_deref(),
        Some("\x1b[Z")
    );
    assert_eq!(
        key_to_input(KeyCode::F(5), KeyModifiers::empty()).as_deref(),
        Some("\x1b[15~")
    );
}

#[test]
fn maps_control_and_alt_characters() {
    assert_eq!(
        key_to_input(KeyCode::Char('c'), CONTROL).as_deref(),
        Some("\x03")
    );
    assert_eq!(
        key_to_input(KeyCode::Char('x'), ALT).as_deref(),
        Some("\x1bx")
    );
    assert_eq!(
        key_to_input(
            KeyCode::Char('m'),
            KeyModifiers { shift: false, alt: true, control: true }
        )
        .as_deref(),
        Some("\x1b\r")
    );
}

#[test]
fn maps_ctrl_modified_control_keys_to_csi_u() {
    assert_eq!(
        key_to_input(KeyCode::Enter, CONTROL).as_deref(),
        Some("\x1b[13;5u")
    );
    assert_eq!(
        key_to_input(KeyCode::Tab, CONTROL).as_deref(),
        Some("\x1b[9;5u")
    );
    assert_eq!(
        key_to_input(KeyCode::Backspace, CONTROL).as_deref(),
        Some("\x1b[127;5u")
    );
    // Plain, or with shift alone, they send what they always sent.
    assert_eq!(
        key_to_input(KeyCode::Enter, KeyModifiers::empty()).as_deref(),
        Some("\r")
    );
    assert_eq!(
        key_to_input(KeyCode::Tab, SHIFT).as_deref(),
        Some("\x1b[Z")
    );
}

#[test]
fn parses_named_key_specs() {
    assert_eq!(encode_key_spec("enter").unwrap(), "\r");
    assert_eq!(encode_key_spec("C-c").unwrap(), "\x03");
    assert_eq!(encode_key_spec("Ctrl+Right").unwrap(), "\x1b[1;5C");
    assert_eq!(encode_key_spec("Shift-Tab").unwrap(), "\x1b[Z");
    assert_eq!(encode_key_spec("Alt-x").unwrap(), "\x1bx");
}

#[test]
fn parses_key_bindings_for_ui_config() {
    let (code, modifiers) = parse_key_binding("Ctrl-b").unwrap();
    assert_eq!(code, KeyCode::Char('b'));
    assert_eq!(modifiers, CONTROL);
    let (code, modifiers) = parse_key_binding("Alt-x").unwrap();
    assert_eq!(code, KeyCode::Char('x'));
    assert_eq!(modifiers, ALT);
}

#[test]
fn joins_key_specs_in_order() {
    let keys = vec!["a".to_string(), "enter".to_string()];
    assert_eq!(encode_key_specs(&keys).unwrap(), "a\r");
}

#[test]
fn rejects_empty_key_sequence() {
    assert!(encode_key_specs(&[]).is_err());
}

#[test]
fn each_key_error_has_its_cause() {
    assert!(matches!(encode_key_specs(&[]), Err(KeyError::NoKeys)));
    assert!(matches!(encode_key_spec("  "), Err(KeyError::Empty)));
    assert!(matches!(encode_key_spec("Q-x"), Err(KeyError::UnknownModifier(m)) if m == "q"));
    assert!(matches!(encode_key_spec("nokey"), Err(KeyError::UnknownKey(k)) if k == "nokey"));
    assert!(matches!(encode_key_spec("f"), Err(KeyError::UnknownKey(k)) if k == "f"));
    assert_eq!(encode_key_spec("g").unwrap(), "g");
    assert!(matches!(encode_key_spec("f13"), Err(KeyError::Unsupported(k)) if k == "f13"));
}

#[test]
fn alt_puts_an_escape_before_a_letter() {
    for c in ['a', 'Z', '7', 'é'] {
        let plain = key_to_input(KeyCode::Char(c), KeyModifiers::empty()).unwrap();
        let alt = key_to_input(KeyCode::Char(c), ALT).unwrap();
        assert_eq!(alt, format!("\x1b{plain}"));
    }
}

#[test]
fn function_keys_and_pages() {
    let none = KeyModifiers::empty();
    assert_eq!(key_to_input(KeyCode::F(1), none).as_deref(), Some("\x1b[P"));
    assert_eq!(key_to_input(KeyCode::F(12), none).as_deref(), Some("\x1b[24~"));
    assert_eq!(key_to_input(KeyCode::F(20), none), None);
    assert_eq!(key_to_input(KeyCode::PageUp, none).as_deref(), Some("\x1b[5~"));
    assert_eq!(key_to_input(KeyCode::Home, none).as_deref(), Some("\x1b[H"));
    assert_eq!(key_to_input(KeyCode::Esc, none).as_deref(), Some("\x1b"));
    assert_eq!(key_to_input(KeyCode::Other, none), None);
}
