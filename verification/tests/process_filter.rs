use pot_popup::filter::{is_popup_enabled_for_current_process, popup_get_foreground_process};

fn list(items: &[&str]) -> Option<Vec<String>> {
    Some(items.iter().map(|s| s.to_string()).collect())
}

#[test]
fn disabled_popup_never_shows() {
    assert!(!is_popup_enabled_for_current_process(Some(false), Some("notepad.exe"), None, None));
    assert!(!is_popup_enabled_for_current_process(None, None, None, None));
}

#[test]
fn unknown_process_is_allowed() {
    assert!(is_popup_enabled_for_current_process(Some(true), None, Some("whitelist"), list(&[])));
}

#[test]
fn blacklist_is_the_default() {
    let l = list(&["Code.exe", "WeChat.exe"]);
    assert!(!is_popup_enabled_for_current_process(Some(true), Some("code.EXE"), None, l.clone()));
    assert!(is_popup_enabled_for_current_process(Some(true), Some("notepad.exe"), None, l.clone()));
    assert!(!is_popup_enabled_for_current_process(
        Some(true),
        Some("wechat.exe"),
        Some("blacklist"),
        l.clone()
    ));
    assert!(!is_popup_enabled_for_current_process(
        Some(true),
        Some("wechat.exe"),
        Some("something else"),
        l
    ));
    assert!(is_popup_enabled_for_current_process(Some(true), Some("anything"), None, None));
}

#[test]
fn whitelist_admits_only_listed_processes() {
    let l = list(&["Code.exe"]);
    assert!(is_popup_enabled_for_current_process(
        Some(true),
        Some("CODE.exe"),
        Some("whitelist"),
        l.clone()
    ));
    assert!(!is_popup_enabled_for_current_process(
        Some(true),
        Some("notepad.exe"),
        Some("whitelist"),
        l
    ));
    assert!(!is_popup_enabled_for_current_process(Some(true), Some("x"), Some("whitelist"), None));
    // The mode is compared exactly, not without regard to case.
    assert!(is_popup_enabled_for_current_process(
        Some(true),
        Some("notepad.exe"),
        Some("Whitelist"),
        list(&["Code.exe"])
    ));
}

#[test]
fn foreground_process_name_or_empty() {
    assert_eq!(popup_get_foreground_process(Some(String::from("pot.exe"))), "pot.exe");
    assert_eq!(popup_get_foreground_process(None), "");
}

#[test]
fn ascii_case_of_names_does_not_matter() {
    for (p, entry) in [("CODE.EXE", "code.exe"), ("code.exe", "Code.Exe"), ("Code.exe", "CODE.EXE")] {
        assert!(!is_popup_enabled_for_current_process(Some(true), Some(p), None, list(&[entry])));
        assert!(is_popup_enabled_for_current_process(
            Some(true),
            Some(p),
            Some("whitelist"),
            list(&[entry])
        ));
    }
}
