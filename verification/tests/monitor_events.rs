use pot_popup::hotkey::KeyStroke;
use pot_popup::monitor::{
    apply_visibility_payload, handle_selection, monitor_thread_started, monitor_thread_stopped,
    mouse_hook_proc, popup_get_text, selection_decision, popup_set_enabled, popup_translate, selection_finished,
    start_popup_monitor, stop_popup_monitor, update_popup_opacity, EnableAction, HookAction,
    OpacityAction, Point, PopupMonitor, SelectionRead, StartAction, StoredFlag, TranslateAction, WM_LBUTTONDOWN,
    WM_LBUTTONUP, WM_MOUSEMOVE,
};
use pot_popup::opacity::PopupGeometry;

const MS: u64 = 1_000_000;

fn at(x: i32, y: i32) -> Option<Point> {
    Some(Point { x, y })
}

fn shown() -> PopupMonitor {
    let mut m = PopupMonitor::new();
    apply_visibility_payload(&mut m, Some("true"));
    assert!(m.popup_visible());
    m
}

#[test]
fn start_depends_on_the_setting() {
    let mut m = PopupMonitor::new();
    assert_eq!(
        start_popup_monitor(&mut m, StoredFlag::Missing),
        StartAction::Disabled { store_default: true }
    );
    assert_eq!(
        start_popup_monitor(&mut m, StoredFlag::NotBool),
        StartAction::Disabled { store_default: false }
    );
    assert_eq!(
        start_popup_monitor(&mut m, StoredFlag::Flag(false)),
        StartAction::Disabled { store_default: false }
    );
    assert_eq!(start_popup_monitor(&mut m, StoredFlag::Flag(true)), StartAction::Launch);
    assert_eq!(start_popup_monitor(&mut m, StoredFlag::Flag(true)), StartAction::AlreadyRunning);
    assert_eq!(start_popup_monitor(&mut m, StoredFlag::Missing), StartAction::AlreadyRunning);
}

#[test]
fn stop_reaches_the_hook_thread() {
    let mut m = PopupMonitor::new();
    assert_eq!(stop_popup_monitor(&m), None);
    assert_eq!(start_popup_monitor(&mut m, StoredFlag::Flag(true)), StartAction::Launch);
    assert_eq!(stop_popup_monitor(&m), None);
    monitor_thread_started(&mut m, 4242);
    assert_eq!(stop_popup_monitor(&m), Some(4242));
    assert_eq!(popup_set_enabled(&m, false), EnableAction::Stop(Some(4242)));
    assert_eq!(popup_set_enabled(&m, true), EnableAction::Start);
    monitor_thread_stopped(&mut m);
    assert_eq!(stop_popup_monitor(&m), None);
    assert_eq!(popup_set_enabled(&m, false), EnableAction::Stop(None));
    assert_eq!(start_popup_monitor(&mut m, StoredFlag::Flag(true)), StartAction::Launch);
}

#[test]
fn drag_of_five_pixels_selects() {
    let mut m = PopupMonitor::new();
    let none = HookAction { opacity_at: None, start_selection: false };
    assert_eq!(mouse_hook_proc(&mut m, 0, WM_LBUTTONDOWN, at(0, 0), 0), none);
    assert_eq!(
        mouse_hook_proc(&mut m, 0, WM_LBUTTONUP, at(3, 4), 10 * MS),
        HookAction { opacity_at: at(3, 4), start_selection: true }
    );
}

#[test]
fn short_drag_is_a_click() {
    let mut m = PopupMonitor::new();
    mouse_hook_proc(&mut m, 0, WM_LBUTTONDOWN, at(0, 0), 0);
    assert_eq!(
        mouse_hook_proc(&mut m, 0, WM_LBUTTONUP, at(3, 3), 10 * MS),
        HookAction { opacity_at: at(3, 3), start_selection: false }
    );
}

#[test]
fn only_one_selection_at_a_time() {
    let mut m = PopupMonitor::new();
    mouse_hook_proc(&mut m, 0, WM_LBUTTONDOWN, at(0, 0), 0);
    assert!(mouse_hook_proc(&mut m, 0, WM_LBUTTONUP, at(100, 0), 10 * MS).start_selection);
    mouse_hook_proc(&mut m, 0, WM_LBUTTONDOWN, at(0, 0), 2000 * MS);
    assert!(!mouse_hook_proc(&mut m, 0, WM_LBUTTONUP, at(100, 0), 2010 * MS).start_selection);
    selection_finished(&mut m);
    mouse_hook_proc(&mut m, 0, WM_LBUTTONDOWN, at(0, 0), 4000 * MS);
    assert!(mouse_hook_proc(&mut m, 0, WM_LBUTTONUP, at(100, 0), 4010 * MS).start_selection);
}

#[test]
fn double_click_selects() {
    let mut m = PopupMonitor::new();
    assert!(!mouse_hook_proc(&mut m, 0, WM_LBUTTONUP, at(10, 10), 1000 * MS).start_selection);
    assert!(mouse_hook_proc(&mut m, 0, WM_LBUTTONUP, at(12, 12), 1400 * MS).start_selection);
}

#[test]
fn slow_or_distant_second_click_does_not_select() {
    let mut m = PopupMonitor::new();
    mouse_hook_proc(&mut m, 0, WM_LBUTTONUP, at(10, 10), 1000 * MS);
    assert!(!mouse_hook_proc(&mut m, 0, WM_LBUTTONUP, at(10, 10), 1500 * MS).start_selection);
    assert!(!mouse_hook_proc(&mut m, 0, WM_LBUTTONUP, at(13, 14), 1600 * MS).start_selection);
    assert!(mouse_hook_proc(&mut m, 0, WM_LBUTTONUP, at(13, 15), 1700 * MS).start_selection);
}

#[test]
fn clock_going_back_counts_as_no_time() {
    let mut m = PopupMonitor::new();
    mouse_hook_proc(&mut m, 0, WM_LBUTTONUP, at(10, 10), 1000 * MS);
    assert!(mouse_hook_proc(&mut m, 0, WM_LBUTTONUP, at(10, 10), 10 * MS).start_selection);
}

#[test]
fn negative_code_and_other_messages_do_nothing() {
    let mut m = PopupMonitor::new();
    let none = HookAction { opacity_at: None, start_selection: false };
    mouse_hook_proc(&mut m, 0, WM_LBUTTONDOWN, at(0, 0), 0);
    assert_eq!(mouse_hook_proc(&mut m, -1, WM_LBUTTONUP, at(100, 0), MS), none);
    assert_eq!(mouse_hook_proc(&mut m, 0, 0x0204, at(100, 0), MS), none);
    assert!(mouse_hook_proc(&mut m, 0, WM_LBUTTONUP, at(100, 0), MS).start_selection);
}

#[test]
fn moves_ask_for_opacity() {
    let mut m = PopupMonitor::new();
    assert_eq!(
        mouse_hook_proc(&mut m, 0, WM_MOUSEMOVE, at(5, 6), 0),
        HookAction { opacity_at: at(5, 6), start_selection: false }
    );
    assert_eq!(
        mouse_hook_proc(&mut m, 0, WM_MOUSEMOVE, None, 0),
        HookAction { opacity_at: at(0, 0), start_selection: false }
    );
}

#[test]
fn release_without_position_uses_origin() {
    let mut m = PopupMonitor::new();
    mouse_hook_proc(&mut m, 0, WM_LBUTTONDOWN, at(100, 100), 0);
    assert_eq!(
        mouse_hook_proc(&mut m, 0, WM_LBUTTONUP, None, MS),
        HookAction { opacity_at: at(0, 0), start_selection: true }
    );
}

#[test]
fn press_without_position_is_not_a_drag_start() {
    let mut m = PopupMonitor::new();
    mouse_hook_proc(&mut m, 0, WM_LBUTTONDOWN, None, 0);
    assert!(!mouse_hook_proc(&mut m, 0, WM_LBUTTONUP, at(300, 300), MS).start_selection);
}

#[test]
fn visibility_follows_the_front_end() {
    let mut m = PopupMonitor::new();
    assert!(!m.popup_visible());
    apply_visibility_payload(&mut m, Some("true"));
    assert!(m.popup_visible());
    apply_visibility_payload(&mut m, Some("garbage"));
    assert!(m.popup_visible());
    apply_visibility_payload(&mut m, None);
    assert!(m.popup_visible());
    apply_visibility_payload(&mut m, Some(" false "));
    assert!(!m.popup_visible());
}

#[test]
fn popup_fades_and_hides() {
    let mut m = shown();
    let g = Some(PopupGeometry { x: 100, y: 100, width: 200, height: 100 });
    // On the popup: fully opaque, as already reported.
    assert_eq!(update_popup_opacity(&mut m, g, 150, 150), OpacityAction::Unchanged);
    // Twenty pixels right of the popup: 128 - 8 steps.
    assert_eq!(update_popup_opacity(&mut m, g, 320, 150), OpacityAction::Emit(120));
    // Two pixels farther: too small a change to report.
    assert_eq!(update_popup_opacity(&mut m, g, 322, 150), OpacityAction::Unchanged);
    // Six steps from the last report.
    assert_eq!(update_popup_opacity(&mut m, g, 326, 150), OpacityAction::Emit(114));
    // Diagonal: 30 and 40 pixels away on the axes is 50 pixels.
    assert_eq!(update_popup_opacity(&mut m, g, 330, 240), OpacityAction::Emit(90));
    // Just inside the fade margin: one step left.
    assert_eq!(update_popup_opacity(&mut m, g, 439, 150), OpacityAction::Emit(1));
    // At the fade margin: hide.
    assert_eq!(update_popup_opacity(&mut m, g, 440, 150), OpacityAction::Hide);
    assert!(!m.popup_visible());
    // Hidden: the mouse no longer matters.
    assert_eq!(update_popup_opacity(&mut m, g, 150, 150), OpacityAction::Unchanged);
}

#[test]
fn coming_back_restores_full_opacity() {
    let mut m = shown();
    let g = Some(PopupGeometry { x: 0, y: 0, width: 10, height: 10 });
    assert_eq!(update_popup_opacity(&mut m, g, 80, 5), OpacityAction::Emit(70));
    assert_eq!(update_popup_opacity(&mut m, g, -12, 0), OpacityAction::Emit(128));
}

#[test]
fn far_away_mouse_hides_without_overflow() {
    let mut m = shown();
    let g = Some(PopupGeometry { x: i32::MIN, y: 0, width: 10, height: 10 });
    assert_eq!(update_popup_opacity(&mut m, g, i32::MAX, 0), OpacityAction::Hide);
}

#[test]
fn missing_window_leaves_popup_alone() {
    let mut m = shown();
    assert_eq!(update_popup_opacity(&mut m, None, 5000, 5000), OpacityAction::Unchanged);
    assert!(m.popup_visible());
}

#[test]
fn blank_selection_shows_nothing() {
    let mut m = PopupMonitor::new();
    assert_eq!(handle_selection(&mut m, SelectionRead::ReadSelection, Some(String::from("  \n\t "))), None);
    assert_eq!(handle_selection(&mut m, SelectionRead::ReadSelection, Some(String::new())), None);
    assert_eq!(popup_get_text(&m), "");
}

#[test]
fn selected_text_is_kept_for_the_popup() {
    let mut m = PopupMonitor::new();
    assert_eq!(handle_selection(&mut m, SelectionRead::ReadSelection, Some(String::from("hello world"))), Some(String::from("hello world")));
    assert_eq!(popup_get_text(&m), "hello world");
    assert_eq!(handle_selection(&mut m, SelectionRead::ReadSelection, Some(String::from("   "))), None);
    assert_eq!(popup_get_text(&m), "hello world");
}

#[test]
fn translate_button_presses_the_hotkey() {
    let mut m = shown();
    assert_eq!(popup_translate(&mut m, false, Some("Alt+A")), TranslateAction::NoPopup);
    assert!(m.popup_visible());
    assert_eq!(
        popup_translate(&mut m, true, Some("Alt+A")),
        TranslateAction::HideAndPress(vec![
            KeyStroke { vk: 0x12, up: false },
            KeyStroke { vk: 0x41, up: false },
            KeyStroke { vk: 0x41, up: true },
            KeyStroke { vk: 0x12, up: true },
        ])
    );
    assert!(!m.popup_visible());
}

#[test]
fn translate_button_without_usable_hotkey_only_hides() {
    let mut m = shown();
    assert_eq!(popup_translate(&mut m, true, None), TranslateAction::HideOnly);
    assert!(!m.popup_visible());
    assert_eq!(popup_translate(&mut m, true, Some("   ")), TranslateAction::HideOnly);
    assert_eq!(popup_translate(&mut m, true, Some("Alt+Home")), TranslateAction::HideOnly);
}

#[test]
fn reshown_popup_reports_full_opacity_again() {
    let mut m = shown();
    let g = Some(PopupGeometry { x: 0, y: 0, width: 10, height: 10 });
    assert_eq!(update_popup_opacity(&mut m, g, 500, 5), OpacityAction::Hide);
    apply_visibility_payload(&mut m, Some("true"));
    assert_eq!(update_popup_opacity(&mut m, g, 5, 5), OpacityAction::Emit(128));
    assert_eq!(update_popup_opacity(&mut m, g, 20, 5), OpacityAction::Unchanged);
}

#[test]
fn unicode_whitespace_selection_is_blank() {
    let mut m = PopupMonitor::new();
    assert_eq!(handle_selection(&mut m, SelectionRead::ReadSelection, Some(String::from("\u{3000}\u{a0}\u{2028}"))), None);
    assert_eq!(handle_selection(&mut m, SelectionRead::ReadSelection, Some(String::from("\u{3000}x"))), Some(String::from("\u{3000}x")));
}

#[test]
fn only_json_whitespace_around_a_boolean_payload() {
    let mut m = PopupMonitor::new();
    apply_visibility_payload(&mut m, Some("\t\r\n true \n"));
    assert!(m.popup_visible());
    apply_visibility_payload(&mut m, Some("\u{a0}false"));
    assert!(m.popup_visible());
    apply_visibility_payload(&mut m, Some("\"false\""));
    assert!(m.popup_visible());
    apply_visibility_payload(&mut m, Some("false"));
    assert!(!m.popup_visible());
}

#[test]
fn skipped_selection_reads_and_keeps_nothing() {
    let mut m = PopupMonitor::new();
    assert_eq!(selection_decision(Some(false), Some("notepad.exe"), None, None), SelectionRead::Skip);
    assert_eq!(
        handle_selection(&mut m, SelectionRead::Skip, Some(String::from("secret"))),
        None
    );
    assert_eq!(handle_selection(&mut m, SelectionRead::Skip, None), None);
    assert_eq!(handle_selection(&mut m, SelectionRead::ReadSelection, None), None);
    assert_eq!(popup_get_text(&m), "");
}

#[test]
fn selection_decision_follows_the_filter() {
    let list = Some(vec![String::from("Code.exe")]);
    assert_eq!(
        selection_decision(Some(true), Some("notepad.exe"), None, list.clone()),
        SelectionRead::ReadSelection
    );
    assert_eq!(selection_decision(Some(true), Some("code.exe"), None, list), SelectionRead::Skip);
    assert_eq!(selection_decision(Some(true), None, None, None), SelectionRead::ReadSelection);
}
