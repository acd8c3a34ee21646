# pot_popup

The decision logic of pot's selection popup, verified with Verus.

- `src/text.rs`: character-level string helpers (`chars_equal`,
  `split_chars`) and the standard-library string functions the logic uses
  (`to_lowercase`, `trim`, `parse::<u32>`), each behind one trusted item.
- `src/hotkey.rs`: hotkey strings such as `Ctrl+Shift+D` and the key events
  that press them: modifiers and the primary key down in order, then up in
  reverse order.
- `src/opacity.rs`: the distance from the mouse to the popup and the popup's
  opacity, in 1/128 steps: opaque within 12 px, hidden from 140 px on,
  linear in between.
- `src/monitor.rs`: the monitor's state and its transitions: starting and
  stopping the mouse hook thread, reading a mouse gesture as a selection,
  fading and hiding the popup, the translate button.
- `src/filter.rs`: whether the popup may appear over the foreground process
  (enabled setting, whitelist or blacklist).
- `app/`: the Windows and Tauri side, which gathers the inputs and performs
  the actions the library returns.
- `tests/`: tests of the library on concrete values.
