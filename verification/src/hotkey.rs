//! Hotkey strings such as `Alt+A`, `Ctrl+Shift+D` or `CommandOrControl+F1`,
//! and the key presses that reproduce them: every key down, modifiers first
//! and the primary key last, then every key up in the reverse order.

use vstd::prelude::*;
use crate::text::{lemma_split_on_ascii, lemma_trimmed_ascii, all_ascii, ascii_lower, ascii_lower_char, lemma_ascii_case_forms, lemma_ascii_case_variants, ascii_upper, unsigned_digits, decimal_value, chars_equal, lemma_split_on_nonempty, split_chars, split_on, trim, trimmed, views_of, is_ascii_digit, is_ascii_lower, is_ascii_upper, lowercase_of, parse_u32, parse_u32_spec, to_lowercase};

verus! {

/// The virtual-key code of a lowercased modifier name.
pub open spec fn modifier_code(lower: Seq<char>) -> Option<u16> {
    if lower == "ctrl"@ || lower == "control"@ || lower == "commandorcontrol"@
        || lower == "ctrlorcmd"@ || lower == "cmdorctrl"@ {
        Some(0x11u16)
    } else if lower == "alt"@ || lower == "option"@ {
        Some(0x12u16)
    } else if lower == "shift"@ {
        Some(0x10u16)
    } else if lower == "meta"@ || lower == "super"@ || lower == "command"@ || lower == "cmd"@
        || lower == "win"@ || lower == "windows"@ || lower == "winlogo"@ {
        Some(0x5Bu16)
    } else {
        None
    }
}

/// The virtual-key code of a lowercased named key or punctuation mark.
pub open spec fn named_key_code(lower: Seq<char>) -> Option<u16> {
    if lower == "space"@ {
        Some(0x20u16)
    } else if lower == "enter"@ || lower == "return"@ {
        Some(0x0Du16)
    } else if lower == "tab"@ {
        Some(0x09u16)
    } else if lower == "escape"@ || lower == "esc"@ {
        Some(0x1Bu16)
    } else if lower == "backspace"@ {
        Some(0x08u16)
    } else if lower == "delete"@ || lower == "del"@ {
        Some(0x2Eu16)
    } else if lower == "up"@ {
        Some(0x26u16)
    } else if lower == "down"@ {
        Some(0x28u16)
    } else if lower == "left"@ {
        Some(0x25u16)
    } else if lower == "right"@ {
        Some(0x27u16)
    } else if lower == ","@ {
        Some(0xBCu16)
    } else if lower == "."@ {
        Some(0xBEu16)
    } else if lower == ";"@ {
        Some(0xBAu16)
    } else if lower == "/"@ {
        Some(0xBFu16)
    } else if lower == "\\"@ {
        Some(0xDCu16)
    } else if lower == "'"@ {
        Some(0xDEu16)
    } else if lower == "["@ {
        Some(0xDBu16)
    } else if lower == "]"@ {
        Some(0xDDu16)
    } else if lower == "`"@ {
        Some(0xC0u16)
    } else if lower == "-"@ {
        Some(0xBDu16)
    } else if lower == "="@ {
        Some(0xBBu16)
    } else {
        None
    }
}

/// The number of a function key `f1` to `f12`: an `f` followed by text that
/// parses as an unsigned integer from 1 to 12.
pub open spec fn function_key_number(lower: Seq<char>) -> Option<u32> {
    if lower.len() >= 1 && lower[0] == 'f' {
        match parse_u32_spec(lower.drop_first()) {
            Some(n) => if 1 <= n && n <= 12 {
                Some(n)
            } else {
                None
            },
            None => None,
        }
    } else {
        None
    }
}

/// The virtual-key code of a lowercased key name: a single letter or digit,
/// a function key, or one of the named keys.
pub open spec fn key_code(lower: Seq<char>) -> Option<u16> {
    if lower.len() == 1 && is_ascii_lower(lower[0]) {
        Some((0x41 + (lower[0] as int - 'a' as int)) as u16)
    } else if lower.len() == 1 && is_ascii_digit(lower[0]) {
        Some((0x30 + (lower[0] as int - '0' as int)) as u16)
    } else if function_key_number(lower) is Some {
        Some((0x70 + function_key_number(lower)->0 - 1) as u16)
    } else {
        named_key_code(lower)
    }
}

/// A lowercased key name that is one ASCII capital letter, which the
/// lowercase mapping never produces.
pub open spec fn is_single_capital(lower: Seq<char>) -> bool {
    lower.len() == 1 && is_ascii_upper(lower[0])
}

/// The code of a modifier as it is written in a hotkey, in any case.
pub open spec fn spec_modifier_vk(modifier: Seq<char>) -> Option<u16> {
    modifier_code(lowercase_of(modifier))
}

/// The code of a key as it is written in a hotkey, in any case.
pub open spec fn spec_key_vk(key: Seq<char>) -> Option<u16> {
    if is_single_capital(lowercase_of(key)) {
        None
    } else {
        key_code(lowercase_of(key))
    }
}

/// The virtual-key code of a modifier name that is already lowercase.
pub fn modifier_vk_lower(lower: &str) -> (r: Option<u16>)
    ensures
        r == modifier_code(lower@),
{
    if chars_equal(lower, "ctrl") || chars_equal(lower, "control") || chars_equal(
        lower,
        "commandorcontrol",
    ) || chars_equal(lower, "ctrlorcmd") || chars_equal(lower, "cmdorctrl") {
        Some(0x11)
    } else if chars_equal(lower, "alt") || chars_equal(lower, "option") {
        Some(0x12)
    } else if chars_equal(lower, "shift") {
        Some(0x10)
    } else if chars_equal(lower, "meta") || chars_equal(lower, "super") || chars_equal(
        lower,
        "command",
    ) || chars_equal(lower, "cmd") || chars_equal(lower, "win") || chars_equal(lower, "windows")
        || chars_equal(lower, "winlogo") {
        Some(0x5B)
    } else {
        None
    }
}

/// The virtual-key code of a modifier name (`Ctrl`, `Alt`, `Shift`, `Win`
/// and their synonyms), in any case; for an ASCII name, the code of its
/// ASCII lowercase form.
pub fn modifier_vk(modifier: &str) -> (r: Option<u16>)
    ensures
        r == spec_modifier_vk(modifier@),
        all_ascii(modifier@) ==> r == modifier_code(ascii_lower(modifier@)),
{
    let lower = to_lowercase(modifier);
    modifier_vk_lower(lower.as_str())
}

/// The virtual-key code of a named key that is already lowercase.
pub fn named_key_vk(lower: &str) -> (r: Option<u16>)
    ensures
        r == named_key_code(lower@),
{
    if chars_equal(lower, "space") {
        Some(0x20)
    } else if chars_equal(lower, "enter") || chars_equal(lower, "return") {
        Some(0x0D)
    } else if chars_equal(lower, "tab") {
        Some(0x09)
    } else if chars_equal(lower, "escape") || chars_equal(lower, "esc") {
        Some(0x1B)
    } else if chars_equal(lower, "backspace") {
        Some(0x08)
    } else if chars_equal(lower, "delete") || chars_equal(lower, "del") {
        Some(0x2E)
    } else if chars_equal(lower, "up") {
        Some(0x26)
    } else if chars_equal(lower, "down") {
        Some(0x28)
    } else if chars_equal(lower, "left") {
        Some(0x25)
    } else if chars_equal(lower, "right") {
        Some(0x27)
    } else if chars_equal(lower, ",") {
        Some(0xBC)
    } else if chars_equal(lower, ".") {
        Some(0xBE)
    } else if chars_equal(lower, ";") {
        Some(0xBA)
    } else if chars_equal(lower, "/") {
        Some(0xBF)
    } else if chars_equal(lower, "\\") {
        Some(0xDC)
    } else if chars_equal(lower, "'") {
        Some(0xDE)
    } else if chars_equal(lower, "[") {
        Some(0xDB)
    } else if chars_equal(lower, "]") {
        Some(0xDD)
    } else if chars_equal(lower, "`") {
        Some(0xC0)
    } else if chars_equal(lower, "-") {
        Some(0xBD)
    } else if chars_equal(lower, "=") {
        Some(0xBB)
    } else {
        None
    }
}

/// The number of the function key `f1` to `f12` that a lowercase key name
/// denotes.
pub fn function_key(lower: &str) -> (r: Option<u32>)
    ensures
        r == function_key_number(lower@),
{
    let n = lower.unicode_len();
    if n >= 1 && lower.get_char(0) == 'f' {
        let rest = lower.substring_char(1, n);
        assert(rest@ =~= lower@.drop_first());
        match parse_u32(rest) {
            Some(k) => if 1 <= k && k <= 12 {
                Some(k)
            } else {
                None
            },
            None => None,
        }
    } else {
        None
    }
}

/// The virtual-key code of a key name that is already lowercase: letters
/// `a`-`z` and digits `0`-`9` map to their own codes, `f1`-`f12` to the
/// function keys, and a few names and punctuation marks to theirs.
pub fn key_vk_lower(lower: &str) -> (r: Option<u16>)
    requires
        !is_single_capital(lower@),
    ensures
        r == key_code(lower@),
{
    let n = lower.unicode_len();
    if n == 1 {
        let c = lower.get_char(0);
        if 'a' <= c && c <= 'z' {
            return Some(0x41 + (c as u16 - 'a' as u16));
        }
        if '0' <= c && c <= '9' {
            return Some(0x30 + (c as u16 - '0' as u16));
        }
    }
    match function_key(lower) {
        Some(k) => {
            return Some(0x70 + (k - 1) as u16);
        },
        None => {},
    }
    named_key_vk(lower)
}

/// The virtual-key code of a key name, in any case; for an ASCII name, the
/// code of its ASCII lowercase form.  `None` also where the lowercase
/// mapping of the name were a single ASCII capital, which it never is.
pub fn key_vk(key: &str) -> (r: Option<u16>)
    ensures
        r == spec_key_vk(key@),
        all_ascii(key@) ==> r == key_code(ascii_lower(key@)),
{
    let lower = to_lowercase(key);
    proof {
        if all_ascii(key@) && key@.len() == 1 {
            lemma_ascii_case_forms(key@[0]);
            assert(lower@[0] == ascii_lower_char(key@[0]));
        }
    }
    let s = lower.as_str();
    if s.unicode_len() == 1 {
        let c = s.get_char(0);
        if 'A' <= c && c <= 'Z' {
            return None;
        }
    }
    key_vk_lower(s)
}

/// One simulated key event: `vk` goes down, or up.
#[derive(Clone, Copy, Debug, PartialEq, Eq)]
pub struct KeyStroke {
    pub vk: u16,
    pub up: bool,
}

/// The pieces of a hotkey between its `+` signs, each trimmed.
pub open spec fn hotkey_parts(hotkey: Seq<char>) -> Seq<Seq<char>> {
    split_on(hotkey, '+').map_values(|p: Seq<char>| trimmed(p))
}

/// The codes of the modifiers that are known, in order; unknown ones are
/// left out.
pub open spec fn modifier_codes(mods: Seq<Seq<char>>) -> Seq<u16>
    decreases mods.len(),
{
    if mods.len() == 0 {
        Seq::<u16>::empty()
    } else {
        let front = modifier_codes(mods.drop_last());
        match spec_modifier_vk(mods.last()) {
            Some(v) => front.push(v),
            None => front,
        }
    }
}

/// The keys a hotkey presses, in pressing order: the known modifiers
/// (every piece but the last), then the primary key (the last piece).
/// `None` when the primary key is unknown.
pub open spec fn hotkey_codes(hotkey: Seq<char>) -> Option<Seq<u16>> {
    let parts = hotkey_parts(hotkey);
    match spec_key_vk(parts.last()) {
        Some(k) => Some(modifier_codes(parts.drop_last()).push(k)),
        None => None,
    }
}

/// For ASCII modifier names: the codes of the known ones, each name read
/// through its ASCII lowercase form.
pub open spec fn modifier_codes_ascii(mods: Seq<Seq<char>>) -> Seq<u16>
    decreases mods.len(),
{
    if mods.len() == 0 {
        Seq::<u16>::empty()
    } else {
        let front = modifier_codes_ascii(mods.drop_last());
        match modifier_code(ascii_lower(mods.last())) {
            Some(v) => front.push(v),
            None => front,
        }
    }
}

/// For an ASCII hotkey: the keys it presses, each name read through its
/// ASCII lowercase form.
pub open spec fn hotkey_codes_ascii(hotkey: Seq<char>) -> Option<Seq<u16>> {
    let parts = hotkey_parts(hotkey);
    match key_code(ascii_lower(parts.last())) {
        Some(k) => Some(modifier_codes_ascii(parts.drop_last()).push(k)),
        None => None,
    }
}

/// Every key down in order, then every key up in the reverse order.
pub open spec fn keystrokes(codes: Seq<u16>) -> Seq<KeyStroke> {
    let n = codes.len();
    Seq::new(
        2 * n,
        |i: int|
            if i < n {
                KeyStroke { vk: codes[i], up: false }
            } else {
                KeyStroke { vk: codes[2 * n - 1 - i], up: true }
            },
    )
}

/// The virtual-key codes a hotkey string presses: its modifiers that are
/// known, then its primary key.  `None` when the primary key is unknown.
pub fn parse_hotkey(hotkey: &str) -> (r: Option<Vec<u16>>)
    ensures
        match r {
            Some(v) => hotkey_codes(hotkey@) == Some(v@),
            None => hotkey_codes(hotkey@) is None,
        },
        all_ascii(hotkey@) ==> match r {
            Some(v) => hotkey_codes_ascii(hotkey@) == Some(v@),
            None => hotkey_codes_ascii(hotkey@) is None,
        },
{
    let pieces = split_chars(hotkey, '+');
    let ghost parts = hotkey_parts(hotkey@);
    proof {
        lemma_split_on_nonempty(hotkey@, '+');
        if all_ascii(hotkey@) {
            lemma_split_on_ascii(hotkey@, '+');
            assert forall|k: int| 0 <= k < parts.len() implies all_ascii(#[trigger] parts[k]) by {
                lemma_trimmed_ascii(split_on(hotkey@, '+')[k]);
            }
        }
    }
    let count = pieces.len();
    assert(parts.len() == count);
    let mut vks: Vec<u16> = Vec::new();
    let mut i: usize = 0;
    assert(parts.drop_last().take(0) =~= Seq::<Seq<char>>::empty());
    while i + 1 < count
        invariant
            count == pieces@.len(),
            count >= 1,
            parts == hotkey_parts(hotkey@),
            parts.len() == count,
            views_of(pieces@) == split_on(hotkey@, '+'),
            i + 1 <= count,
            vks@ == modifier_codes(parts.drop_last().take(i as int)),
            all_ascii(hotkey@) ==> forall|k: int| 0 <= k < parts.len() ==> all_ascii(#[trigger] parts[k]),
            all_ascii(hotkey@) ==> vks@ == modifier_codes_ascii(parts.drop_last().take(i as int)),
        decreases count - i,
    {
        let part = trim(pieces[i]);
        assert(part@ == parts[i as int]);
        let ghost before = parts.drop_last().take(i as int);
        let ghost after = parts.drop_last().take(i + 1);
        assert(after.drop_last() =~= before);
        assert(after.last() == parts[i as int]);
        match modifier_vk(part) {
            Some(v) => {
                vks.push(v);
            },
            None => {},
        }
        i = i + 1;
    }
    assert(parts.drop_last().take(i as int) =~= parts.drop_last());
    let key = trim(pieces[count - 1]);
    assert(key@ == parts.last());
    match key_vk(key) {
        Some(k) => {
            vks.push(k);
            Some(vks)
        },
        None => None,
    }
}

/// The key events that reproduce pressing `vks` together: each key down in
/// order, then each key up in the reverse order.
pub fn press_and_release(vks: &Vec<u16>) -> (r: Vec<KeyStroke>)
    ensures
        r@ == keystrokes(vks@),
{
    let n = vks.len();
    let mut out: Vec<KeyStroke> = Vec::new();
    let mut i: usize = 0;
    while i < n
        invariant
            n == vks@.len(),
            i <= n,
            out@.len() == i,
            forall|j: int| 0 <= j < i ==> out@[j] == (KeyStroke { vk: vks@[j], up: false }),
        decreases n - i,
    {
        out.push(KeyStroke { vk: vks[i], up: false });
        i = i + 1;
    }
    let mut j: usize = 0;
    while j < n
        invariant
            n == vks@.len(),
            j <= n,
            out@.len() == n + j,
            forall|k: int| 0 <= k < n ==> out@[k] == (KeyStroke { vk: vks@[k], up: false }),
            forall|k: int|
                n <= k < n + j ==> out@[k] == (KeyStroke { vk: vks@[2 * n - 1 - k], up: true }),
        decreases n - j,
    {
        out.push(KeyStroke { vk: vks[n - 1 - j], up: true });
        j = j + 1;
    }
    assert(out@ =~= keystrokes(vks@));
    out
}

/// The key events that reproduce a hotkey string, or `None` when its
/// primary key is unknown.
pub fn hotkey_keystrokes(hotkey: &str) -> (r: Option<Vec<KeyStroke>>)
    ensures
        match r {
            Some(v) => hotkey_codes(hotkey@) matches Some(codes) && v@ == keystrokes(codes),
            None => hotkey_codes(hotkey@) is None,
        },
        all_ascii(hotkey@) ==> match r {
            Some(v) => hotkey_codes_ascii(hotkey@) matches Some(codes) && v@ == keystrokes(codes),
            None => hotkey_codes_ascii(hotkey@) is None,
        },
{
    match parse_hotkey(hotkey) {
        Some(vks) => {
            Some(press_and_release(&vks))
        },
        None => None,
    }
}

/// Every key that is pressed is released, in the reverse order: the `i`-th
/// key goes down at position `i` and up at position `2n - 1 - i`, and there
/// are no other events.
pub proof fn lemma_release_mirrors_press(codes: Seq<u16>)
    ensures
        keystrokes(codes).len() == 2 * codes.len(),
        forall|i: int|
            0 <= i < codes.len() ==> #[trigger] keystrokes(codes)[i] == (KeyStroke {
                vk: codes[i],
                up: false,
            }) && keystrokes(codes)[2 * codes.len() - 1 - i] == (KeyStroke {
                vk: codes[i],
                up: true,
            }),
{
}

/// A hotkey that can be pressed presses at least its primary key, last,
/// and releases it first; every key before it is a known modifier.
pub proof fn lemma_primary_key_innermost(hotkey: Seq<char>)
    requires
        hotkey_codes(hotkey) is Some,
    ensures
        ({
            let codes = hotkey_codes(hotkey)->0;
            let n = codes.len();
            let parts = hotkey_parts(hotkey);
            &&& n >= 1
            &&& Some(codes[n - 1]) == spec_key_vk(parts.last())
            &&& keystrokes(codes)[n - 1] == (KeyStroke { vk: codes[n - 1], up: false })
            &&& keystrokes(codes)[n as int] == (KeyStroke { vk: codes[n - 1], up: true })
            &&& codes.drop_last() == modifier_codes(parts.drop_last())
        }),
{
    let codes = hotkey_codes(hotkey)->0;
    let parts = hotkey_parts(hotkey);
    assert(codes.drop_last() =~= modifier_codes(parts.drop_last()));
}

/// Key and modifier names are read without regard to case: names with the
/// same lowercase form give the same code.
pub proof fn lemma_names_case_insensitive(a: Seq<char>, b: Seq<char>)
    requires
        lowercase_of(a) == lowercase_of(b),
    ensures
        spec_key_vk(a) == spec_key_vk(b),
        spec_modifier_vk(a) == spec_modifier_vk(b),
{
}

/// ASCII key and modifier names are read without regard to letter case: a
/// name, its ASCII lowercase form and its ASCII uppercase form are all ASCII
/// and give the same code (see the ASCII clauses of `key_vk` and
/// `modifier_vk`).
pub proof fn lemma_names_ignore_ascii_case(s: Seq<char>)
    requires
        all_ascii(s),
    ensures
        all_ascii(ascii_lower(s)),
        all_ascii(ascii_upper(s)),
        key_code(ascii_lower(ascii_lower(s))) == key_code(ascii_lower(s)),
        key_code(ascii_lower(ascii_upper(s))) == key_code(ascii_lower(s)),
        modifier_code(ascii_lower(ascii_lower(s))) == modifier_code(ascii_lower(s)),
        modifier_code(ascii_lower(ascii_upper(s))) == modifier_code(ascii_lower(s)),
{
    lemma_ascii_case_variants(s);
}

/// Every known modifier adds its code after those before it, and an
/// unknown one adds nothing: the codes grow by one for each known modifier.
pub proof fn lemma_modifier_codes_push(mods: Seq<Seq<char>>, m: Seq<char>)
    ensures
        spec_modifier_vk(m) matches Some(c) ==> modifier_codes(mods.push(m)) == modifier_codes(
            mods,
        ).push(c),
        spec_modifier_vk(m) is None ==> modifier_codes(mods.push(m)) == modifier_codes(mods),
        modifier_code(ascii_lower(m)) matches Some(c) ==> modifier_codes_ascii(mods.push(m))
            == modifier_codes_ascii(mods).push(c),
        modifier_code(ascii_lower(m)) is None ==> modifier_codes_ascii(mods.push(m))
            == modifier_codes_ascii(mods),
{
    assert(mods.push(m).drop_last() =~= mods);
}

/// When every modifier is known, each one is pressed, in order: the codes
/// are the modifiers' codes, one for one.
pub proof fn lemma_known_modifiers_all_pressed(mods: Seq<Seq<char>>)
    requires
        forall|i: int| 0 <= i < mods.len() ==> (#[trigger] spec_modifier_vk(mods[i])) is Some,
    ensures
        modifier_codes(mods).len() == mods.len(),
        forall|i: int|
            0 <= i < mods.len() ==> Some(#[trigger] modifier_codes(mods)[i]) == spec_modifier_vk(
                mods[i],
            ),
    decreases mods.len(),
{
    if mods.len() > 0 {
        let front = mods.drop_last();
        assert forall|i: int| 0 <= i < front.len() implies (#[trigger] spec_modifier_vk(
            front[i],
        )) is Some by {
            assert(front[i] == mods[i]);
            assert(spec_modifier_vk(mods[i]) is Some);
        }
        lemma_known_modifiers_all_pressed(front);
        assert(spec_modifier_vk(mods[mods.len() - 1]) is Some);
        assert forall|i: int| 0 <= i < mods.len() implies Some(
            #[trigger] modifier_codes(mods)[i],
        ) == spec_modifier_vk(mods[i]) by {
            if i < mods.len() - 1 {
                assert(front[i] == mods[i]);
                assert(Some(modifier_codes(front)[i]) == spec_modifier_vk(front[i]));
            }
        }
    }
}

/// The same for ASCII names read through their ASCII lowercase forms.
pub proof fn lemma_known_ascii_modifiers_all_pressed(mods: Seq<Seq<char>>)
    requires
        forall|i: int| 0 <= i < mods.len() ==> (#[trigger] modifier_code(ascii_lower(mods[i]))) is Some,
    ensures
        modifier_codes_ascii(mods).len() == mods.len(),
        forall|i: int|
            0 <= i < mods.len() ==> Some(#[trigger] modifier_codes_ascii(mods)[i]) == modifier_code(
                ascii_lower(mods[i]),
            ),
    decreases mods.len(),
{
    if mods.len() > 0 {
        let front = mods.drop_last();
        assert forall|i: int| 0 <= i < front.len() implies (#[trigger] modifier_code(
            ascii_lower(front[i]),
        )) is Some by {
            assert(front[i] == mods[i]);
            assert(modifier_code(ascii_lower(mods[i])) is Some);
        }
        lemma_known_ascii_modifiers_all_pressed(front);
        assert(modifier_code(ascii_lower(mods[mods.len() - 1])) is Some);
        assert forall|i: int| 0 <= i < mods.len() implies Some(
            #[trigger] modifier_codes_ascii(mods)[i],
        ) == modifier_code(ascii_lower(mods[i])) by {
            if i < mods.len() - 1 {
                assert(front[i] == mods[i]);
                assert(Some(modifier_codes_ascii(front)[i]) == modifier_code(ascii_lower(front[i])));
            }
        }
    }
}

/// A hotkey whose modifiers are all known presses one key per piece: its
/// modifiers' codes in order, then the primary key.
pub proof fn lemma_hotkey_presses_every_known_piece(hotkey: Seq<char>)
    requires
        hotkey_codes(hotkey) is Some,
        forall|i: int|
            0 <= i < hotkey_parts(hotkey).len() - 1 ==> (#[trigger] spec_modifier_vk(
                hotkey_parts(hotkey)[i],
            )) is Some,
    ensures
        hotkey_codes(hotkey)->0.len() == hotkey_parts(hotkey).len(),
        forall|i: int|
            0 <= i < hotkey_parts(hotkey).len() - 1 ==> Some(#[trigger] hotkey_codes(hotkey)->0[i])
                == spec_modifier_vk(hotkey_parts(hotkey)[i]),
{
    let parts = hotkey_parts(hotkey);
    lemma_split_on_nonempty(hotkey, '+');
    assert(parts.len() >= 1);
    let mods = parts.drop_last();
    assert forall|i: int| 0 <= i < mods.len() implies (#[trigger] spec_modifier_vk(mods[i])) is Some by {
        assert(mods[i] == parts[i]);
        assert(spec_modifier_vk(parts[i]) is Some);
    }
    lemma_known_modifiers_all_pressed(mods);
    assert forall|i: int| 0 <= i < parts.len() - 1 implies Some(
        #[trigger] hotkey_codes(hotkey)->0[i],
    ) == spec_modifier_vk(parts[i]) by {
        assert(mods[i] == parts[i]);
        assert(Some(modifier_codes(mods)[i]) == spec_modifier_vk(mods[i]));
    }
}

/// The ASCII digit for a number below ten.
pub open spec fn digit_char(d: nat) -> char {
    (('0' as int) + d) as char
}

/// The decimal digits of a number from 1 to 19.
pub open spec fn small_decimal(n: nat) -> Seq<char> {
    if n < 10 {
        seq![digit_char(n)]
    } else {
        seq!['1', digit_char((n - 10) as nat)]
    }
}

/// Every one of `f1` to `f12` is a function key: `f` followed by the
/// decimal digits of `n` is the function key `n`, whose code is
/// `0x70 + n - 1`.
pub proof fn lemma_f1_to_f12(n: nat)
    requires
        1 <= n <= 12,
    ensures
        function_key_number(seq!['f'] + small_decimal(n)) == Some(n as u32),
        key_code(seq!['f'] + small_decimal(n)) == Some((0x70 + n - 1) as u16),
{
    let name = seq!['f'] + small_decimal(n);
    let digits = small_decimal(n);
    assert(name.drop_first() =~= digits);
    assert(unsigned_digits(digits) == digits);
    assert(decimal_value(Seq::<char>::empty()) == 0);
    if n < 10 {
        assert(digits.last() == digit_char(n));
        assert(digit_char(n) as int == 48 + n);
        assert(digits.drop_last() =~= Seq::<char>::empty());
        assert(decimal_value(digits) == decimal_value(digits.drop_last()) * 10 + ((digits.last() as int) - ('0' as int)) as nat);
        assert(decimal_value(digits) == n);
    } else {
        let one = seq!['1'];
        assert(digits.last() == digit_char((n - 10) as nat));
        assert(digit_char((n - 10) as nat) as int == 48 + n - 10);
        assert(digits.drop_last() =~= one);
        assert(one.drop_last() =~= Seq::<char>::empty());
        assert(one.last() == '1');
        assert(decimal_value(one) == decimal_value(one.drop_last()) * 10 + ((one.last() as int) - ('0' as int)) as nat);
        assert(decimal_value(one) == 1);
        assert(decimal_value(digits) == decimal_value(digits.drop_last()) * 10 + ((digits.last() as int) - ('0' as int)) as nat);
        assert(decimal_value(digits) == n);
    }
    assert(parse_u32_spec(digits) == Some(n as u32));
    assert(name.len() >= 2);
}

/// A single lowercase letter `a`-`z` is the key `VK_A`-`VK_Z`, and a single
/// digit is the key `VK_0`-`VK_9`.
pub proof fn lemma_letters_and_digits(c: char)
    ensures
        is_ascii_lower(c) ==> key_code(seq![c]) == Some((0x41 + (c as int - 'a' as int)) as u16),
        is_ascii_digit(c) ==> key_code(seq![c]) == Some((0x30 + (c as int - '0' as int)) as u16),
{
}

/// `f1` to `f12` are the function keys `VK_F1` to `VK_F12`.
pub proof fn lemma_function_keys(lower: Seq<char>)
    requires
        function_key_number(lower) is Some,
    ensures
        key_code(lower) == Some((0x70 + function_key_number(lower)->0 - 1) as u16),
        0x70 <= key_code(lower)->0 <= 0x7B,
{
    assert(unsigned_digits(lower.drop_first()).len() > 0);
    assert(lower.len() >= 2);
}

} // verus!
