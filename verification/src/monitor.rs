//! The state of the popup monitor and the decisions taken on each event:
//! starting and stopping the mouse hook thread, reading a mouse gesture as a
//! text selection, fading the popup as the mouse moves away, and what the
//! popup's translate button does.  The platform side performs the actions
//! that come back.

use vstd::prelude::*;
use crate::hotkey::{hotkey_codes, hotkey_codes_ascii, hotkey_keystrokes, keystrokes, KeyStroke};
use crate::opacity::{
    distance_within_fade, opacity_for_distance, opacity_level, popup_distance, PopupGeometry,
    OPACITY_REPORT_STEP, OPACITY_STEPS, POPUP_FADE_MARGIN,
};
use crate::filter::{is_popup_enabled_for_current_process, list_or_empty, popup_allowed};
use crate::text::{all_ascii, opt_view, trim, trimmed};

verus! {

/// Low-level mouse message: the mouse moved.
pub const WM_MOUSEMOVE: u32 = 0x0200;

/// Low-level mouse message: the left button went down.
pub const WM_LBUTTONDOWN: u32 = 0x0201;

/// Low-level mouse message: the left button went up.
pub const WM_LBUTTONUP: u32 = 0x0202;

/// A drag shorter than this many pixels is a click, not a selection.
pub const MIN_DRAG_DISTANCE: i64 = 5;

/// Two clicks at most this far apart, in pixels (exclusive), can be a
/// double click.
pub const MAX_DBLCLICK_DISTANCE: i64 = 5;

/// Two clicks less than this many nanoseconds apart can be a double click.
pub const MAX_DBLCLICK_INTERVAL_NS: u64 = 500_000_000;

/// A screen position in physical pixels.
#[derive(Clone, Copy, Debug, PartialEq, Eq)]
pub struct Point {
    pub x: i32,
    pub y: i32,
}

/// Where and when the left button last went up.
#[derive(Clone, Copy, Debug, PartialEq, Eq)]
pub struct Click {
    pub at_ns: u64,
    pub x: i32,
    pub y: i32,
}

/// The `popup_enabled` setting as it was found in the settings store.
#[derive(Clone, Copy, Debug, PartialEq, Eq)]
pub enum StoredFlag {
    /// No value is stored.
    Missing,
    /// A value is stored, but it is not a boolean.
    NotBool,
    /// A boolean is stored.
    Flag(bool),
}

/// What to do after a request to start the monitor.
#[derive(Clone, Copy, Debug, PartialEq, Eq)]
pub enum StartAction {
    /// The monitor is already running: nothing to do.
    AlreadyRunning,
    /// The popup is disabled: do not start.  When `store_default` is set,
    /// write `false` to the missing setting first.
    Disabled { store_default: bool },
    /// Start the hook thread.
    Launch,
}

/// What to do after the popup setting changes.  The new value is stored
/// in the settings first in both cases.
#[derive(Clone, Copy, Debug, PartialEq, Eq)]
pub enum EnableAction {
    /// Start the monitor (which reads the setting back).
    Start,
    /// Stop the monitor: post a quit message to this hook thread, if any.
    Stop(Option<u32>),
}

/// What to do after a low-level mouse message.
#[derive(Clone, Copy, Debug, PartialEq, Eq)]
pub struct HookAction {
    /// Update the popup's opacity for the mouse at this point.
    pub opacity_at: Option<Point>,
    /// Read the selection and maybe show the popup (in a worker).
    pub start_selection: bool,
}

/// What to do with the popup after the mouse moved.
#[derive(Clone, Copy, Debug, PartialEq, Eq)]
pub enum OpacityAction {
    /// Leave the popup as it is.
    Unchanged,
    /// Report opacity zero and hide the popup.
    Hide,
    /// Report this opacity, in 1/128 steps.
    Emit(u32),
}

/// What the popup's translate button does.
#[derive(Debug, PartialEq, Eq)]
pub enum TranslateAction {
    /// There is no popup window: nothing to do.
    NoPopup,
    /// Hide the popup; there is no usable hotkey to press.
    HideOnly,
    /// Hide the popup, wait for the focus to return, then send these keys.
    HideAndPress(Vec<KeyStroke>),
}

/// The abstract state of the monitor.
pub struct MonitorView {
    /// The hook thread was started and has not ended.
    pub running: bool,
    /// A selection is being read; no other may start.
    pub pending: bool,
    /// The popup is shown.
    pub visible: bool,
    /// The id of the thread that holds the hook, or 0.
    pub hook_thread: u32,
    /// Where the left button went down, while it is held.
    pub drag_start: Option<Point>,
    /// Where and when the left button last went up.
    pub last_click: Option<Click>,
    /// The opacity last reported, in 1/128 steps.
    pub last_opacity: nat,
    /// The text the popup shows.
    pub text: Seq<char>,
}

/// The state the popup monitor keeps between events.
pub struct PopupMonitor {
    running: bool,
    pending: bool,
    visible: bool,
    hook_thread: u32,
    drag_start: Option<Point>,
    last_click: Option<Click>,
    last_opacity: u32,
    text: String,
}

impl View for PopupMonitor {
    type V = MonitorView;

    closed spec fn view(&self) -> MonitorView {
        MonitorView {
            running: self.running,
            pending: self.pending,
            visible: self.visible,
            hook_thread: self.hook_thread,
            drag_start: self.drag_start,
            last_click: self.last_click,
            last_opacity: self.last_opacity as nat,
            text: self.text@,
        }
    }
}

/// The state before any event: nothing running, the popup hidden and fully
/// opaque, no text.
pub open spec fn initial_view() -> MonitorView {
    MonitorView {
        running: false,
        pending: false,
        visible: false,
        hook_thread: 0,
        drag_start: None,
        last_click: None,
        last_opacity: OPACITY_STEPS as nat,
        text: Seq::<char>::empty(),
    }
}

/// The state every reachable monitor is in: the last reported opacity is
/// one the popup can have, from zero (hidden) to fully opaque.
pub open spec fn well_formed(v: MonitorView) -> bool {
    v.last_opacity <= OPACITY_STEPS
}

impl PopupMonitor {
    /// A monitor that is not running, with the popup hidden.
    pub fn new() -> (m: PopupMonitor)
        ensures
            m@ == initial_view(),
    {
        let m = PopupMonitor {
            running: false,
            pending: false,
            visible: false,
            hook_thread: 0,
            drag_start: None,
            last_click: None,
            last_opacity: OPACITY_STEPS,
            text: String::new(),
        };
        assert(m@.text =~= Seq::<char>::empty());
        m
    }

    /// Whether the popup is shown: the cheap test before any window lookup.
    pub fn popup_visible(&self) -> (r: bool)
        ensures
            r == self@.visible,
    {
        self.visible
    }
}

// ---------------------------------------------------------------------------
// Starting and stopping the monitor.
// ---------------------------------------------------------------------------

/// The decision on a request to start the monitor.
pub open spec fn start_step(v: MonitorView, stored: StoredFlag) -> (MonitorView, StartAction) {
    if v.running {
        (v, StartAction::AlreadyRunning)
    } else {
        match stored {
            StoredFlag::Flag(true) => (MonitorView { running: true, ..v }, StartAction::Launch),
            StoredFlag::Missing => (v, StartAction::Disabled { store_default: true }),
            _ => (v, StartAction::Disabled { store_default: false }),
        }
    }
}

/// Starts the monitor unless it runs already or the popup is disabled; a
/// missing setting counts as disabled and is written as `false`.
pub fn start_popup_monitor(monitor: &mut PopupMonitor, stored: StoredFlag) -> (r: StartAction)
    ensures
        (final(monitor)@, r) == start_step(old(monitor)@, stored),
{
    if monitor.running {
        return StartAction::AlreadyRunning;
    }
    match stored {
        StoredFlag::Flag(true) => {
            monitor.running = true;
            StartAction::Launch
        },
        StoredFlag::Missing => StartAction::Disabled { store_default: true },
        _ => StartAction::Disabled { store_default: false },
    }
}

/// The hook thread installed its hook: remember the thread, so that it can
/// be told to quit.
pub fn monitor_thread_started(monitor: &mut PopupMonitor, thread_id: u32)
    ensures
        final(monitor)@ == (MonitorView { hook_thread: thread_id, ..old(monitor)@ }),
{
    monitor.hook_thread = thread_id;
}

/// The hook thread ended, after its message loop quit or after it failed to
/// install the hook: the monitor is no longer running.
pub fn monitor_thread_stopped(monitor: &mut PopupMonitor)
    ensures
        final(monitor)@ == (MonitorView { hook_thread: 0, running: false, ..old(monitor)@ }),
{
    monitor.hook_thread = 0;
    monitor.running = false;
}

/// The thread to post a quit message to, to stop the monitor: the hook
/// thread, if one holds the hook.
pub fn stop_popup_monitor(monitor: &PopupMonitor) -> (r: Option<u32>)
    ensures
        r == (if monitor@.hook_thread != 0 {
            Some(monitor@.hook_thread)
        } else {
            None
        }),
{
    if monitor.hook_thread != 0 {
        Some(monitor.hook_thread)
    } else {
        None
    }
}

/// The decision after the popup setting changed to `enabled`.
pub fn popup_set_enabled(monitor: &PopupMonitor, enabled: bool) -> (r: EnableAction)
    ensures
        enabled ==> r == EnableAction::Start,
        !enabled ==> r == EnableAction::Stop(
            if monitor@.hook_thread != 0 {
                Some(monitor@.hook_thread)
            } else {
                None
            },
        ),
{
    if enabled {
        EnableAction::Start
    } else {
        EnableAction::Stop(stop_popup_monitor(monitor))
    }
}

// ---------------------------------------------------------------------------
// Popup visibility.
// ---------------------------------------------------------------------------

/// JSON whitespace: space, tab, line feed and carriage return.
pub open spec fn is_json_ws(c: char) -> bool {
    c == ' ' || c == '\t' || c == '\n' || c == '\r'
}

/// `s` without its leading JSON whitespace.
pub open spec fn strip_json_ws_start(s: Seq<char>) -> Seq<char>
    decreases s.len(),
{
    if s.len() > 0 && is_json_ws(s[0]) {
        strip_json_ws_start(s.drop_first())
    } else {
        s
    }
}

/// `s` without its trailing JSON whitespace.
pub open spec fn strip_json_ws_end(s: Seq<char>) -> Seq<char>
    decreases s.len(),
{
    if s.len() > 0 && is_json_ws(s.last()) {
        strip_json_ws_end(s.drop_last())
    } else {
        s
    }
}

/// What `serde_json::from_str::<bool>` accepts: the literal `true` or
/// `false`, with JSON whitespace around it and nothing else.
pub open spec fn json_bool(payload: Seq<char>) -> Option<bool> {
    let core = strip_json_ws_end(strip_json_ws_start(payload));
    if core == "true"@ {
        Some(true)
    } else if core == "false"@ {
        Some(false)
    } else {
        None
    }
}

/// The texts `true` and `false` read as those booleans.
pub proof fn lemma_json_bool_literals()
    ensures
        json_bool("true"@) == Some(true),
        json_bool("false"@) == Some(false),
{
    reveal_strlit("true");
    reveal_strlit("false");
    let t = "true"@;
    let f = "false"@;
    assert(strip_json_ws_start(t) == t);
    assert(strip_json_ws_end(t) == t);
    assert(strip_json_ws_start(f) == f);
    assert(strip_json_ws_end(f) == f);
    assert(f != t);
}

/// Calls `serde_json::from_str::<bool>`: `Some(true)` or `Some(false)`
/// exactly for the literal `true` or `false` with JSON whitespace around
/// it, `None` for any other text.
#[verifier::external_body]
fn parse_json_bool(payload: &str) -> (r: Option<bool>)
    ensures
        r == json_bool(payload@),
{
    serde_json::from_str::<bool>(payload).ok()
}

/// The state after a "popup visible" event with this payload: a payload
/// that reads as a JSON boolean sets the visibility, anything else is
/// ignored.
pub open spec fn visibility_step(v: MonitorView, payload: Option<Seq<char>>) -> MonitorView {
    match payload {
        Some(p) => match json_bool(p) {
            Some(b) => MonitorView { visible: b, ..v },
            None => v,
        },
        None => v,
    }
}

/// Records what the front end reports about the popup being shown or
/// hidden.
pub fn apply_visibility_payload(monitor: &mut PopupMonitor, payload: Option<&str>)
    ensures
        final(monitor)@ == visibility_step(old(monitor)@, opt_view(payload)),
        opt_view(payload) == Some("true"@) ==> final(monitor)@ == (MonitorView {
            visible: true,
            ..old(monitor)@
        }),
        opt_view(payload) == Some("false"@) ==> final(monitor)@ == (MonitorView {
            visible: false,
            ..old(monitor)@
        }),
{
    proof {
        lemma_json_bool_literals();
    }
    match payload {
        Some(p) => match parse_json_bool(p) {
            Some(b) => {
                monitor.visible = b;
            },
            None => {},
        },
        None => {},
    }
}

// ---------------------------------------------------------------------------
// The mouse hook.
// ---------------------------------------------------------------------------

/// The square of the distance between two points.
pub open spec fn squared_gap(a: Point, b: Point) -> int {
    (a.x - b.x) * (a.x - b.x) + (a.y - b.y) * (a.y - b.y)
}

/// Two points are less than five pixels apart.
pub open spec fn near(a: Point, b: Point) -> bool {
    squared_gap(a, b) < MAX_DBLCLICK_DISTANCE * MAX_DBLCLICK_DISTANCE
}

/// The time from `earlier` to `now`, zero if `now` is not later.
pub open spec fn elapsed(earlier: u64, now: u64) -> int {
    if now >= earlier {
        now - earlier
    } else {
        0
    }
}

/// The button went up far enough from where it went down to be a drag.
pub open spec fn is_drag(start: Option<Point>, release: Point) -> bool {
    match start {
        Some(s) => squared_gap(s, release) >= MIN_DRAG_DISTANCE * MIN_DRAG_DISTANCE,
        None => false,
    }
}

/// The button went up soon and close enough after the previous release to
/// make a double click.
pub open spec fn is_double_click(last: Option<Click>, now: u64, release: Point) -> bool {
    match last {
        Some(c) => elapsed(c.at_ns, now) < MAX_DBLCLICK_INTERVAL_NS && near(
            Point { x: c.x, y: c.y },
            release,
        ),
        None => false,
    }
}

/// Where a mouse message happened; the origin when the message carries no
/// position.
pub open spec fn position_or_origin(point: Option<Point>) -> Point {
    match point {
        Some(p) => p,
        None => Point { x: 0, y: 0 },
    }
}

/// The decision on one low-level mouse message.
pub open spec fn hook_step(v: MonitorView, code: i32, message: u32, point: Option<Point>, now: u64) -> (
    MonitorView,
    HookAction,
) {
    let nothing = HookAction { opacity_at: None, start_selection: false };
    if code < 0 {
        (v, nothing)
    } else if message == WM_LBUTTONDOWN {
        match point {
            Some(p) => (MonitorView { drag_start: Some(p), ..v }, nothing),
            None => (v, nothing),
        }
    } else if message == WM_MOUSEMOVE {
        (v, HookAction { opacity_at: Some(position_or_origin(point)), start_selection: false })
    } else if message == WM_LBUTTONUP {
        let p = position_or_origin(point);
        let gesture = is_drag(v.drag_start, p) || is_double_click(v.last_click, now, p);
        let start = gesture && !v.pending;
        (
            MonitorView {
                drag_start: None,
                last_click: Some(Click { at_ns: now, x: p.x, y: p.y }),
                pending: v.pending || start,
                ..v
            },
            HookAction { opacity_at: Some(p), start_selection: start },
        )
    } else {
        (v, nothing)
    }
}

/// Whether two points are at least `limit` pixels apart, compared on the
/// squares of the distances.
fn at_least_apart(a: Point, b: Point, limit: i64) -> (r: bool)
    requires
        0 <= limit <= 100,
    ensures
        r == (squared_gap(a, b) >= limit * limit),
{
    let dx = a.x as i64 - b.x as i64;
    let dy = a.y as i64 - b.y as i64;
    assert(dx * dx >= 0 && dy * dy >= 0) by (nonlinear_arith);
    if dx >= limit || dx <= -limit {
        assert(dx * dx >= limit * limit) by (nonlinear_arith)
            requires
                dx >= limit || dx <= -limit,
                limit >= 0,
        ;
        return true;
    }
    if dy >= limit || dy <= -limit {
        assert(dy * dy >= limit * limit) by (nonlinear_arith)
            requires
                dy >= limit || dy <= -limit,
                limit >= 0,
        ;
        return true;
    }
    assert(dx * dx <= 10000 && dy * dy <= 10000) by (nonlinear_arith)
        requires
            -limit < dx < limit,
            -limit < dy < limit,
            limit <= 100,
    ;
    assert(limit * limit <= 10000) by (nonlinear_arith)
        requires
            0 <= limit <= 100,
    ;
    dx * dx + dy * dy >= limit * limit
}

/// Handles one low-level mouse message: remembers where a drag starts, and
/// on release decides whether the gesture selected text (a drag of at least
/// five pixels, or a second click within half a second and five pixels)
/// and whether a selection may start, one at a time.  Moves and releases
/// also ask for the popup's opacity to follow the mouse.
pub fn mouse_hook_proc(
    monitor: &mut PopupMonitor,
    code: i32,
    message: u32,
    point: Option<Point>,
    now_ns: u64,
) -> (r: HookAction)
    ensures
        (final(monitor)@, r) == hook_step(old(monitor)@, code, message, point, now_ns),
{
    let nothing = HookAction { opacity_at: None, start_selection: false };
    if code < 0 {
        return nothing;
    }
    if message == WM_LBUTTONDOWN {
        match point {
            Some(p) => {
                monitor.drag_start = Some(p);
            },
            None => {},
        }
        nothing
    } else if message == WM_MOUSEMOVE {
        let p = match point {
            Some(p) => p,
            None => Point { x: 0, y: 0 },
        };
        HookAction { opacity_at: Some(p), start_selection: false }
    } else if message == WM_LBUTTONUP {
        let p = match point {
            Some(p) => p,
            None => Point { x: 0, y: 0 },
        };
        let drag = match monitor.drag_start {
            Some(s) => at_least_apart(s, p, MIN_DRAG_DISTANCE),
            None => false,
        };
        monitor.drag_start = None;
        let double = match monitor.last_click {
            Some(c) => {
                let gap = if now_ns >= c.at_ns {
                    now_ns - c.at_ns
                } else {
                    0
                };
                gap < MAX_DBLCLICK_INTERVAL_NS && !at_least_apart(
                    Point { x: c.x, y: c.y },
                    p,
                    MAX_DBLCLICK_DISTANCE,
                )
            },
            None => false,
        };
        monitor.last_click = Some(Click { at_ns: now_ns, x: p.x, y: p.y });
        let start = (drag || double) && !monitor.pending;
        if start {
            monitor.pending = true;
        }
        HookAction { opacity_at: Some(p), start_selection: start }
    } else {
        nothing
    }
}

/// The selection worker finished, whichever way: another selection may
/// start.
pub fn selection_finished(monitor: &mut PopupMonitor)
    ensures
        final(monitor)@ == (MonitorView { pending: false, ..old(monitor)@ }),
{
    monitor.pending = false;
}

// ---------------------------------------------------------------------------
// Opacity.
// ---------------------------------------------------------------------------

/// The difference between two opacities is large enough to report.
pub open spec fn worth_reporting(level: nat, last: nat) -> bool {
    level >= last + OPACITY_REPORT_STEP || last >= level + OPACITY_REPORT_STEP
}

/// The decision when the mouse is at `(x, y)`, with the popup's rectangle
/// if the window could be found.
pub open spec fn opacity_step(v: MonitorView, geometry: Option<PopupGeometry>, x: i32, y: i32) -> (
    MonitorView,
    OpacityAction,
) {
    if !v.visible {
        (v, OpacityAction::Unchanged)
    } else {
        match geometry {
            None => (v, OpacityAction::Unchanged),
            Some(g) => {
                let dist = popup_distance(g, x as int, y as int);
                if dist >= POPUP_FADE_MARGIN {
                    (MonitorView { visible: false, last_opacity: 0, ..v }, OpacityAction::Hide)
                } else {
                    let level = opacity_level(dist);
                    if worth_reporting(level, v.last_opacity) {
                        (
                            MonitorView { last_opacity: level, ..v },
                            OpacityAction::Emit(level as u32),
                        )
                    } else {
                        (v, OpacityAction::Unchanged)
                    }
                }
            },
        }
    }
}

/// Fades the popup as the mouse moves away and hides it once the mouse is
/// at the fade margin or beyond.  A hidden popup, or one whose window was
/// not found, is left alone; a change of opacity smaller than
/// `OPACITY_REPORT_STEP` steps is not reported.
pub fn update_popup_opacity(
    monitor: &mut PopupMonitor,
    geometry: Option<PopupGeometry>,
    x: i32,
    y: i32,
) -> (r: OpacityAction)
    ensures
        (final(monitor)@, r) == opacity_step(old(monitor)@, geometry, x, y),
{
    if !monitor.visible {
        return OpacityAction::Unchanged;
    }
    let g = match geometry {
        Some(g) => g,
        None => {
            return OpacityAction::Unchanged;
        },
    };
    match distance_within_fade(g, x, y) {
        None => {
            monitor.visible = false;
            monitor.last_opacity = 0;
            OpacityAction::Hide
        },
        Some(dist) => {
            let level = opacity_for_distance(dist);
            let last = monitor.last_opacity;
            if level as u64 >= last as u64 + OPACITY_REPORT_STEP as u64 || last as u64 >= level as u64
                + OPACITY_REPORT_STEP as u64 {
                monitor.last_opacity = level;
                OpacityAction::Emit(level)
            } else {
                OpacityAction::Unchanged
            }
        },
    }
}

// ---------------------------------------------------------------------------
// Selected text.
// ---------------------------------------------------------------------------

/// The decision on a selected text: blank text (after trimming) shows
/// nothing; other text is kept for the popup and shown.
pub open spec fn selection_step(v: MonitorView, text: Seq<char>) -> (MonitorView, bool) {
    if trimmed(text).len() == 0 {
        (v, false)
    } else {
        (MonitorView { text: text, ..v }, true)
    }
}

/// Whether the selection is read at all after a selecting gesture.
#[derive(Clone, Copy, Debug, PartialEq, Eq)]
pub enum SelectionRead {
    /// The popup may not appear here: do not read the selection.
    Skip,
    /// Read the selection and hand it to `handle_selection`.
    ReadSelection,
}

/// Whether to read the selection, for the filter's answer.
pub open spec fn read_decision_for(allowed: bool) -> SelectionRead {
    if allowed {
        SelectionRead::ReadSelection
    } else {
        SelectionRead::Skip
    }
}

/// Decides, from the popup filter's inputs, whether the selection is read:
/// only when the popup may appear over the foreground process.
pub fn selection_decision(
    enabled: Option<bool>,
    process: Option<&str>,
    mode: Option<&str>,
    list: Option<Vec<String>>,
) -> (r: SelectionRead)
    ensures
        r == read_decision_for(
            popup_allowed(enabled, opt_view(process), opt_view(mode), list_or_empty(list)),
        ),
{
    if is_popup_enabled_for_current_process(enabled, process, mode, list) {
        SelectionRead::ReadSelection
    } else {
        SelectionRead::Skip
    }
}

/// The view of an optional owned string.
pub open spec fn opt_string_view(s: Option<String>) -> Option<Seq<char>> {
    match s {
        Some(t) => Some(t@),
        None => None,
    }
}

/// The outcome of a selecting gesture, from whether the selection was to be
/// read and, if so, the text that was read: nothing is kept or shown unless
/// the selection was read and its text is not blank.
pub open spec fn decided_selection_step(
    v: MonitorView,
    decision: SelectionRead,
    text: Option<Seq<char>>,
) -> (MonitorView, bool) {
    match decision {
        SelectionRead::Skip => (v, false),
        SelectionRead::ReadSelection => match text {
            Some(t) => selection_step(v, t),
            None => (v, false),
        },
    }
}

/// Takes the outcome of a selecting gesture: whether the selection was to
/// be read, and the text read if so.  A skipped read, a missing text or a
/// text that is blank after trimming shows no popup and keeps nothing;
/// other text is kept for the popup to fetch and is returned, to be shown.
pub fn handle_selection(monitor: &mut PopupMonitor, decision: SelectionRead, text: Option<String>) -> (r:
    Option<String>)
    ensures
        (final(monitor)@, r is Some) == decided_selection_step(
            old(monitor)@,
            decision,
            opt_string_view(text),
        ),
        r matches Some(t) ==> opt_string_view(text) == Some(t@),
{
    match decision {
        SelectionRead::Skip => None,
        SelectionRead::ReadSelection => match text {
            Some(text) => {
                if trim(text.as_str()).is_empty() {
                    return None;
                }
                monitor.text = text.clone();
                Some(text)
            },
            None => None,
        },
    }
}

/// The text the popup shows.
pub fn popup_get_text(monitor: &PopupMonitor) -> (r: String)
    ensures
        r@ == monitor@.text,
{
    monitor.text.clone()
}

// ---------------------------------------------------------------------------
// The translate button.
// ---------------------------------------------------------------------------

/// The keys the translate button presses for the configured hotkey: none
/// when it is missing, blank or names an unknown primary key.
pub open spec fn translate_keys(hotkey: Option<Seq<char>>) -> Option<Seq<KeyStroke>> {
    match hotkey {
        Some(h) => if trimmed(h).len() == 0 {
            None
        } else {
            match hotkey_codes(h) {
                Some(codes) => Some(keystrokes(codes)),
                None => None,
            }
        },
        None => None,
    }
}

/// For an ASCII hotkey: the keys the translate button presses, each name
/// read through its ASCII lowercase form.
pub open spec fn translate_keys_ascii(hotkey: Seq<char>) -> Option<Seq<KeyStroke>> {
    if trimmed(hotkey).len() == 0 {
        None
    } else {
        match hotkey_codes_ascii(hotkey) {
            Some(codes) => Some(keystrokes(codes)),
            None => None,
        }
    }
}

/// The translate button: when the popup window exists, hide it and press
/// the configured selection-translate hotkey, exactly as the user would.
pub fn popup_translate(monitor: &mut PopupMonitor, popup_found: bool, hotkey: Option<&str>) -> (r:
    TranslateAction)
    ensures
        !popup_found ==> r == TranslateAction::NoPopup && final(monitor)@ == old(monitor)@,
        popup_found ==> final(monitor)@ == (MonitorView { visible: false, ..old(monitor)@ }),
        popup_found ==> match r {
            TranslateAction::HideOnly => translate_keys(opt_view(hotkey)) is None,
            TranslateAction::HideAndPress(keys) => translate_keys(opt_view(hotkey)) == Some(
                keys@,
            ),
            TranslateAction::NoPopup => false,
        },
        popup_found && (opt_view(hotkey) matches Some(h) && all_ascii(h)) ==> match r {
            TranslateAction::HideOnly => translate_keys_ascii(opt_view(hotkey)->0) is None,
            TranslateAction::HideAndPress(keys) => translate_keys_ascii(opt_view(hotkey)->0)
                == Some(keys@),
            TranslateAction::NoPopup => false,
        },
{
    if !popup_found {
        return TranslateAction::NoPopup;
    }
    monitor.visible = false;
    match hotkey {
        Some(h) => {
            if trim(h).is_empty() {
                TranslateAction::HideOnly
            } else {
                match hotkey_keystrokes(h) {
                    Some(keys) => TranslateAction::HideAndPress(keys),
                    None => TranslateAction::HideOnly,
                }
            }
        },
        None => TranslateAction::HideOnly,
    }
}

// ---------------------------------------------------------------------------
// Laws.
// ---------------------------------------------------------------------------

/// Starting a running monitor changes nothing: it is never started twice.
pub proof fn lemma_start_is_idempotent(v: MonitorView, stored: StoredFlag)
    requires
        v.running,
    ensures
        start_step(v, stored) == (v, StartAction::AlreadyRunning),
{
}

/// Only an enabled setting starts the hook thread, and then the monitor
/// runs; a disabled or missing setting leaves a stopped monitor stopped.
pub proof fn lemma_start_only_when_enabled(v: MonitorView, stored: StoredFlag)
    requires
        !v.running,
    ensures
        start_step(v, stored).1 == StartAction::Launch <==> stored == StoredFlag::Flag(true),
        start_step(v, stored).1 == StartAction::Launch ==> start_step(v, stored).0.running,
        start_step(v, stored).1 != StartAction::Launch ==> start_step(v, stored).0 == v,
{
}

/// Once the hook thread has ended, the monitor can be started again, and
/// there is no thread left to stop.
pub proof fn lemma_restart_after_thread_end(v: MonitorView)
    ensures
        ({
            let stopped = MonitorView { hook_thread: 0, running: false, ..v };
            &&& start_step(stopped, StoredFlag::Flag(true)).1 == StartAction::Launch
            &&& stopped.hook_thread == 0
        }),
{
}

/// At most one selection is read at a time: while one is pending no mouse
/// message starts another, and a message that starts one leaves it pending.
pub proof fn lemma_one_selection_at_a_time(
    v: MonitorView,
    code: i32,
    message: u32,
    point: Option<Point>,
    now: u64,
)
    ensures
        v.pending ==> !hook_step(v, code, message, point, now).1.start_selection,
        hook_step(v, code, message, point, now).1.start_selection ==> hook_step(
            v,
            code,
            message,
            point,
            now,
        ).0.pending,
        v.pending ==> hook_step(v, code, message, point, now).0.pending,
{
}

/// Pressing the button at `a` and releasing it at least five pixels away
/// starts a selection, unless one is pending.
pub proof fn lemma_drag_selects(v: MonitorView, a: Point, b: Point, t1: u64, t2: u64)
    requires
        squared_gap(a, b) >= MIN_DRAG_DISTANCE * MIN_DRAG_DISTANCE,
        !v.pending,
    ensures
        ({
            let pressed = hook_step(v, 0, WM_LBUTTONDOWN, Some(a), t1).0;
            hook_step(pressed, 0, WM_LBUTTONUP, Some(b), t2).1.start_selection
        }),
{
}

/// Two releases less than half a second and five pixels apart start a
/// selection on the second one, unless one is pending.
pub proof fn lemma_double_click_selects(v: MonitorView, a: Point, b: Point, t1: u64, t2: u64)
    requires
        near(a, b),
        t1 <= t2 < t1 + MAX_DBLCLICK_INTERVAL_NS,
    ensures
        ({
            let first = hook_step(v, 0, WM_LBUTTONUP, Some(a), t1).0;
            !first.pending ==> hook_step(first, 0, WM_LBUTTONUP, Some(b), t2).1.start_selection
        }),
{
}

/// An ordinary double click selects: press and release at `a`, then press
/// and release at `b` less than five pixels away and less than half a
/// second after the first release.  One of the two releases starts a
/// selection unless one is pending; with no earlier click remembered, it is
/// the second one.
pub proof fn lemma_double_click_with_presses_selects(
    v: MonitorView,
    a: Point,
    b: Point,
    t0: u64,
    t1: u64,
    t2: u64,
    t3: u64,
)
    requires
        !v.pending,
        (a.x - b.x) * (a.x - b.x) + (a.y - b.y) * (a.y - b.y) < 25,
        t1 <= t3,
        t3 - t1 < 500_000_000,
    ensures
        ({
            let s1 = hook_step(v, 0, WM_LBUTTONDOWN, Some(a), t0);
            let s2 = hook_step(s1.0, 0, WM_LBUTTONUP, Some(a), t1);
            let s3 = hook_step(s2.0, 0, WM_LBUTTONDOWN, Some(b), t2);
            let s4 = hook_step(s3.0, 0, WM_LBUTTONUP, Some(b), t3);
            &&& s2.1.start_selection || s4.1.start_selection
            &&& v.last_click is None ==> !s2.1.start_selection && s4.1.start_selection
        }),
{
    let s1 = hook_step(v, 0, WM_LBUTTONDOWN, Some(a), t0);
    let s2 = hook_step(s1.0, 0, WM_LBUTTONUP, Some(a), t1);
    assert(squared_gap(a, a) == 0);
    assert(s2.0.last_click == Some(Click { at_ns: t1, x: a.x, y: a.y }));
    let s3 = hook_step(s2.0, 0, WM_LBUTTONDOWN, Some(b), t2);
    assert(s3.0.last_click == s2.0.last_click);
    assert(near(Point { x: a.x, y: a.y }, b));
}

/// With the popup shown and its window found, a mouse inside the fade
/// margin is reported at the opacity of its distance exactly when that
/// opacity differs from the last report by at least the report step, up or
/// down; otherwise nothing changes.
pub proof fn lemma_opacity_reports_changes_both_ways(
    v: MonitorView,
    g: PopupGeometry,
    x: i32,
    y: i32,
)
    requires
        v.visible,
        popup_distance(g, x as int, y as int) < POPUP_FADE_MARGIN,
    ensures
        ({
            let level = opacity_level(popup_distance(g, x as int, y as int));
            let step = opacity_step(v, Some(g), x, y);
            &&& (level >= v.last_opacity + 6 || v.last_opacity >= level + 6) ==> step.1
                == OpacityAction::Emit(level as u32) && step.0 == (MonitorView {
                last_opacity: level,
                ..v
            })
            &&& !(level >= v.last_opacity + 6 || v.last_opacity >= level + 6) ==> step.1
                == OpacityAction::Unchanged && step.0 == v
        }),
{
}

/// Coming back towards the popup raises the reported opacity: from a last
/// report below the level at the new distance by six steps or more, the
/// new level is reported.
pub proof fn lemma_opacity_rises_when_mouse_returns(
    v: MonitorView,
    g: PopupGeometry,
    x: i32,
    y: i32,
)
    requires
        v.visible,
        popup_distance(g, x as int, y as int) < POPUP_FADE_MARGIN,
        v.last_opacity + 6 <= opacity_level(popup_distance(g, x as int, y as int)),
    ensures
        opacity_step(v, Some(g), x, y).1 == OpacityAction::Emit(
            opacity_level(popup_distance(g, x as int, y as int)) as u32,
        ),
        opacity_step(v, Some(g), x, y).0.last_opacity > v.last_opacity,
{
}

/// A hidden popup does not react to the mouse.
pub proof fn lemma_hidden_popup_ignores_mouse(
    v: MonitorView,
    geometry: Option<PopupGeometry>,
    x: i32,
    y: i32,
)
    requires
        !v.visible,
    ensures
        opacity_step(v, geometry, x, y) == (v, OpacityAction::Unchanged),
{
}

/// Once the mouse has gone past the fade margin the popup is hidden, and it
/// stays so, whatever the mouse does, until the front end shows it again.
pub proof fn lemma_hidden_until_shown(
    v: MonitorView,
    g: PopupGeometry,
    x: i32,
    y: i32,
    geometry2: Option<PopupGeometry>,
    x2: i32,
    y2: i32,
)
    requires
        v.visible,
        popup_distance(g, x as int, y as int) >= POPUP_FADE_MARGIN,
    ensures
        opacity_step(v, Some(g), x, y).1 == OpacityAction::Hide,
        !opacity_step(v, Some(g), x, y).0.visible,
        opacity_step(opacity_step(v, Some(g), x, y).0, geometry2, x2, y2).1
            == OpacityAction::Unchanged,
{
}

/// Every reported opacity is a real one (1 to 128 steps), differs from the
/// previous report (zero after a hide) by more than 0.04, and becomes the
/// new reference.
pub proof fn lemma_reports_are_real_changes(
    v: MonitorView,
    geometry: Option<PopupGeometry>,
    x: i32,
    y: i32,
)
    ensures
        opacity_step(v, geometry, x, y).1 matches OpacityAction::Emit(level) ==> {
            &&& 1 <= level <= OPACITY_STEPS
            &&& worth_reporting(level as nat, v.last_opacity)
            &&& opacity_step(v, geometry, x, y).0.last_opacity == level
        },
{
}

/// Hiding reports opacity zero; when the popup is shown again, a mouse
/// within the visible margin reports it fully opaque.
pub proof fn lemma_reshown_popup_reports_full_opacity(
    v: MonitorView,
    g: PopupGeometry,
    x: i32,
    y: i32,
    g2: PopupGeometry,
    x2: i32,
    y2: i32,
)
    requires
        v.visible,
        popup_distance(g, x as int, y as int) >= POPUP_FADE_MARGIN,
        popup_distance(g2, x2 as int, y2 as int) <= crate::opacity::POPUP_VISIBLE_MARGIN,
    ensures
        ({
            let hidden = opacity_step(v, Some(g), x, y).0;
            let shown = MonitorView { visible: true, ..hidden };
            &&& hidden.last_opacity == 0
            &&& opacity_step(shown, Some(g2), x2, y2).1 == OpacityAction::Emit(OPACITY_STEPS)
        }),
{
}

/// With the popup not allowed over the foreground process, the selection
/// is not read, nothing is kept and no popup is shown, whatever text is
/// handed over.
pub proof fn lemma_disallowed_selection_reads_nothing(
    v: MonitorView,
    enabled: Option<bool>,
    process: Option<Seq<char>>,
    mode: Option<Seq<char>>,
    list: Seq<Seq<char>>,
    text: Option<Seq<char>>,
)
    requires
        !popup_allowed(enabled, process, mode, list),
    ensures
        read_decision_for(popup_allowed(enabled, process, mode, list)) == SelectionRead::Skip,
        decided_selection_step(v, read_decision_for(popup_allowed(enabled, process, mode, list)), text) == (
            v,
            false,
        ),
{
}

/// The text kept for a non-blank selection is the text the popup fetches.
pub proof fn lemma_selected_text_is_fetched(v: MonitorView, text: Seq<char>)
    requires
        trimmed(text).len() != 0,
    ensures
        selection_step(v, text).1,
        selection_step(v, text).0.text == text,
{
}

/// Every event keeps the monitor well formed, starting from the initial
/// state.
pub proof fn lemma_events_keep_well_formed(
    v: MonitorView,
    stored: StoredFlag,
    thread_id: u32,
    payload: Option<Seq<char>>,
    code: i32,
    message: u32,
    point: Option<Point>,
    now: u64,
    geometry: Option<PopupGeometry>,
    x: i32,
    y: i32,
    text: Seq<char>,
    decision: SelectionRead,
    opt_text: Option<Seq<char>>,
)
    requires
        well_formed(v),
    ensures
        well_formed(initial_view()),
        well_formed(start_step(v, stored).0),
        well_formed(MonitorView { hook_thread: thread_id, ..v }),
        well_formed(MonitorView { hook_thread: 0, running: false, ..v }),
        well_formed(visibility_step(v, payload)),
        well_formed(hook_step(v, code, message, point, now).0),
        well_formed(MonitorView { pending: false, ..v }),
        well_formed(opacity_step(v, geometry, x, y).0),
        well_formed(selection_step(v, text).0),
        well_formed(decided_selection_step(v, decision, opt_text).0),
        well_formed(MonitorView { visible: false, ..v }),
{
    match geometry {
        Some(g) => {
            let dist = popup_distance(g, x as int, y as int);
            if dist < POPUP_FADE_MARGIN {
                assert(1 <= opacity_level(dist) <= OPACITY_STEPS);
            }
        },
        None => {},
    }
}

/// The translate button presses exactly the configured hotkey: its
/// modifiers and primary key down in order, then up in the reverse order.
pub proof fn lemma_translate_presses_hotkey(hotkey: Seq<char>)
    requires
        trimmed(hotkey).len() != 0,
        hotkey_codes(hotkey) is Some,
    ensures
        translate_keys(Some(hotkey)) == Some(keystrokes(hotkey_codes(hotkey)->0)),
{
}

} // verus!
