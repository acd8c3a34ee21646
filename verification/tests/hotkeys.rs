use pot_popup::hotkey::{
    function_key, hotkey_keystrokes, key_vk, key_vk_lower, modifier_vk, modifier_vk_lower,
    named_key_vk, parse_hotkey, press_and_release, KeyStroke,
};
use pot_popup::text::{chars_equal, split_chars};

fn down(vk: u16) -> KeyStroke {
    KeyStroke { vk, up: false }
}

fn up(vk: u16) -> KeyStroke {
    KeyStroke { vk, up: true }
}

#[test]
fn modifiers_in_any_case() {
    assert_eq!(modifier_vk("Ctrl"), Some(0x11));
    assert_eq!(modifier_vk("CONTROL"), Some(0x11));
    assert_eq!(modifier_vk("CommandOrControl"), Some(0x11));
    assert_eq!(modifier_vk("CtrlOrCmd"), Some(0x11));
    assert_eq!(modifier_vk("CmdOrCtrl"), Some(0x11));
    assert_eq!(modifier_vk("Alt"), Some(0x12));
    assert_eq!(modifier_vk("Option"), Some(0x12));
    assert_eq!(modifier_vk("SHIFT"), Some(0x10));
    assert_eq!(modifier_vk("Meta"), Some(0x5B));
    assert_eq!(modifier_vk("Super"), Some(0x5B));
    assert_eq!(modifier_vk("Command"), Some(0x5B));
    assert_eq!(modifier_vk("Cmd"), Some(0x5B));
    assert_eq!(modifier_vk("Win"), Some(0x5B));
    assert_eq!(modifier_vk("Windows"), Some(0x5B));
    assert_eq!(modifier_vk("WinLogo"), Some(0x5B));
    assert_eq!(modifier_vk("Hyper"), None);
    assert_eq!(modifier_vk(""), None);
}

#[test]
fn modifier_names_need_lowercase_before_lookup() {
    assert_eq!(modifier_vk_lower("ctrl"), Some(0x11));
    assert_eq!(modifier_vk_lower("Ctrl"), None);
}

#[test]
fn letters_and_digits() {
    assert_eq!(key_vk("A"), Some(0x41));
    assert_eq!(key_vk("a"), Some(0x41));
    assert_eq!(key_vk("z"), Some(0x5A));
    assert_eq!(key_vk("Q"), Some(0x51));
    assert_eq!(key_vk("0"), Some(0x30));
    assert_eq!(key_vk("7"), Some(0x37));
    assert_eq!(key_vk("9"), Some(0x39));
}

#[test]
fn kelvin_sign_lowercases_to_k() {
    // U+212A KELVIN SIGN lowercases to the ASCII letter k.
    assert_eq!(key_vk("\u{212A}"), Some(0x4B));
}

#[test]
fn function_keys() {
    assert_eq!(key_vk("F1"), Some(0x70));
    assert_eq!(key_vk("f5"), Some(0x74));
    assert_eq!(key_vk("F12"), Some(0x7B));
    assert_eq!(key_vk("F13"), None);
    assert_eq!(key_vk("F0"), None);
    assert_eq!(key_vk("f01"), Some(0x70));
    assert_eq!(key_vk("f+5"), Some(0x74));
    assert_eq!(key_vk("f-5"), None);
    assert_eq!(key_vk("f 5"), None);
    assert_eq!(key_vk("F"), Some(0x46));
    assert_eq!(function_key("f12"), Some(12));
    assert_eq!(function_key("f99999999999"), None);
    assert_eq!(function_key("g1"), None);
}

#[test]
fn named_keys() {
    assert_eq!(key_vk("Space"), Some(0x20));
    assert_eq!(key_vk("Enter"), Some(0x0D));
    assert_eq!(key_vk("Return"), Some(0x0D));
    assert_eq!(key_vk("Tab"), Some(0x09));
    assert_eq!(key_vk("Escape"), Some(0x1B));
    assert_eq!(key_vk("Esc"), Some(0x1B));
    assert_eq!(key_vk("Backspace"), Some(0x08));
    assert_eq!(key_vk("Delete"), Some(0x2E));
    assert_eq!(key_vk("Del"), Some(0x2E));
    assert_eq!(key_vk("Up"), Some(0x26));
    assert_eq!(key_vk("Down"), Some(0x28));
    assert_eq!(key_vk("Left"), Some(0x25));
    assert_eq!(key_vk("Right"), Some(0x27));
    assert_eq!(key_vk(","), Some(0xBC));
    assert_eq!(key_vk("."), Some(0xBE));
    assert_eq!(key_vk(";"), Some(0xBA));
    assert_eq!(key_vk("/"), Some(0xBF));
    assert_eq!(key_vk("\\"), Some(0xDC));
    assert_eq!(key_vk("'"), Some(0xDE));
    assert_eq!(key_vk("["), Some(0xDB));
    assert_eq!(key_vk("]"), Some(0xDD));
    assert_eq!(key_vk("`"), Some(0xC0));
    assert_eq!(key_vk("-"), Some(0xBD));
    assert_eq!(key_vk("="), Some(0xBB));
    assert_eq!(named_key_vk("space"), Some(0x20));
    assert_eq!(named_key_vk("pageup"), None);
}

#[test]
fn unknown_keys() {
    assert_eq!(key_vk(""), None);
    assert_eq!(key_vk("PageUp"), None);
    assert_eq!(key_vk("é"), None);
    assert_eq!(key_vk("+"), None);
    assert_eq!(key_vk_lower("home"), None);
}

#[test]
fn split_keeps_empty_pieces() {
    let pieces = split_chars("a++b", '+');
    assert_eq!(pieces, vec!["a", "", "b"]);
    assert_eq!(split_chars("", '+'), vec![""]);
    assert_eq!(split_chars("+", '+'), vec!["", ""]);
    assert_eq!(split_chars("Alt+A", '+'), vec!["Alt", "A"]);
}

#[test]
fn chars_equal_compares_characters() {
    assert!(chars_equal("héllo", "héllo"));
    assert!(!chars_equal("hello", "hell"));
    assert!(!chars_equal("Hello", "hello"));
    assert!(chars_equal("", ""));
}

#[test]
fn hotkey_codes_in_order() {
    assert_eq!(parse_hotkey("Alt+A"), Some(vec![0x12, 0x41]));
    assert_eq!(parse_hotkey("Ctrl+Shift+D"), Some(vec![0x11, 0x10, 0x44]));
    assert_eq!(parse_hotkey("CommandOrControl+F1"), Some(vec![0x11, 0x70]));
    assert_eq!(parse_hotkey(" Ctrl + Alt + Q "), Some(vec![0x11, 0x12, 0x51]));
    assert_eq!(parse_hotkey("A"), Some(vec![0x41]));
}

#[test]
fn unknown_modifiers_are_skipped() {
    assert_eq!(parse_hotkey("Hyper+Ctrl+S"), Some(vec![0x11, 0x53]));
    assert_eq!(parse_hotkey("++A"), Some(vec![0x41]));
}

#[test]
fn unknown_primary_key_presses_nothing() {
    assert_eq!(parse_hotkey("Ctrl+Nope"), None);
    assert_eq!(parse_hotkey("Ctrl+"), None);
    assert_eq!(parse_hotkey(""), None);
    assert_eq!(hotkey_keystrokes("Alt+Home"), None);
}

#[test]
fn keys_go_down_in_order_and_up_in_reverse() {
    assert_eq!(
        hotkey_keystrokes("Alt+A"),
        Some(vec![down(0x12), down(0x41), up(0x41), up(0x12)])
    );
    assert_eq!(
        hotkey_keystrokes("Ctrl+Shift+D"),
        Some(vec![down(0x11), down(0x10), down(0x44), up(0x44), up(0x10), up(0x11)])
    );
    assert_eq!(press_and_release(&vec![]), vec![]);
    assert_eq!(press_and_release(&vec![0x20]), vec![down(0x20), up(0x20)]);
}

#[test]
fn ascii_case_variants_give_the_same_code() {
    for name in ["Space", "f7", "Q", "Escape", "Enter", ","] {
        let k = key_vk(name);
        assert_eq!(key_vk(&name.to_ascii_lowercase()), k);
        assert_eq!(key_vk(&name.to_ascii_uppercase()), k);
    }
    for name in ["CommandOrControl", "shift", "WinLogo"] {
        let m = modifier_vk(name);
        assert_eq!(modifier_vk(&name.to_ascii_lowercase()), m);
        assert_eq!(modifier_vk(&name.to_ascii_uppercase()), m);
    }
}
