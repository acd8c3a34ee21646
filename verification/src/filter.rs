//! Whether the popup may appear over the foreground process: the popup must
//! be enabled, and the process (compared without regard to case) must be on
//! the whitelist, or off the blacklist.

use vstd::prelude::*;
use crate::text::{all_ascii, ascii_lower, ascii_upper, chars_equal, lowercase_of, opt_view, to_lowercase};

verus! {

/// The views of a list of strings.
pub open spec fn string_views(list: Seq<String>) -> Seq<Seq<char>> {
    list.map_values(|s: String| s@)
}

/// The configured process list, empty when none is configured.
pub open spec fn list_or_empty(list: Option<Vec<String>>) -> Seq<Seq<char>> {
    match list {
        Some(l) => string_views(l@),
        None => Seq::<Seq<char>>::empty(),
    }
}

/// Some entry of the list has the lowercase form `name`.
pub open spec fn listed(name: Seq<char>, list: Seq<Seq<char>>) -> bool {
    exists|i: int| 0 <= i < list.len() && lowercase_of(#[trigger] list[i]) == name
}

/// The list is a whitelist: the mode setting is exactly `whitelist`.  Any
/// other mode, or none, makes it a blacklist.
pub open spec fn is_whitelist(mode: Option<Seq<char>>) -> bool {
    mode == Some("whitelist"@)
}

/// The popup may appear: it is enabled, and either the foreground process is
/// unknown or its lowercase name is on the whitelist, or not on the
/// blacklist.
pub open spec fn popup_allowed(
    enabled: Option<bool>,
    process: Option<Seq<char>>,
    mode: Option<Seq<char>>,
    list: Seq<Seq<char>>,
) -> bool {
    enabled == Some(true) && match process {
        None => true,
        Some(p) => if is_whitelist(mode) {
            listed(lowercase_of(p), list)
        } else {
            !listed(lowercase_of(p), list)
        },
    }
}

/// The ASCII lowercase forms of a list of names.
pub open spec fn lower_all(list: Seq<Seq<char>>) -> Seq<Seq<char>> {
    list.map_values(|s: Seq<char>| ascii_lower(s))
}

/// The ASCII lowercase form of an optional name.
pub open spec fn lower_opt(name: Option<Seq<char>>) -> Option<Seq<char>> {
    match name {
        Some(n) => Some(ascii_lower(n)),
        None => None,
    }
}

/// The process name, if known, and every list entry are ASCII.
pub open spec fn ascii_inputs(process: Option<Seq<char>>, list: Seq<Seq<char>>) -> bool {
    &&& (process matches Some(p) ==> all_ascii(p))
    &&& forall|i: int| 0 <= i < list.len() ==> all_ascii(#[trigger] list[i])
}

/// The filter's answer for a process name and list entries that are
/// already lowercase.
pub open spec fn allowed_for_lowered(
    enabled: Option<bool>,
    name: Option<Seq<char>>,
    mode: Option<Seq<char>>,
    lowered: Seq<Seq<char>>,
) -> bool {
    enabled == Some(true) && match name {
        None => true,
        Some(n) => if is_whitelist(mode) {
            lowered.contains(n)
        } else {
            !lowered.contains(n)
        },
    }
}

/// Whether the popup may appear over the foreground process, from the
/// `popup_enabled` setting (when it is a boolean), the foreground process
/// name (when known), the list mode (when it is a string) and the process
/// list (when it is a list of strings).
pub fn is_popup_enabled_for_current_process(
    enabled: Option<bool>,
    process: Option<&str>,
    mode: Option<&str>,
    list: Option<Vec<String>>,
) -> (r: bool)
    ensures
        r == popup_allowed(enabled, opt_view(process), opt_view(mode), list_or_empty(list)),
        ascii_inputs(opt_view(process), list_or_empty(list)) ==> r == allowed_for_lowered(
            enabled,
            lower_opt(opt_view(process)),
            opt_view(mode),
            lower_all(list_or_empty(list)),
        ),
{
    let on = match enabled {
        Some(b) => b,
        None => false,
    };
    if !on {
        return false;
    }
    let name = match process {
        Some(p) => to_lowercase(p),
        None => {
            return true;
        },
    };
    let white = match mode {
        Some(m) => chars_equal(m, "whitelist"),
        None => false,
    };
    let entries: Vec<String> = match list {
        Some(l) => l,
        None => Vec::new(),
    };
    let ghost views = string_views(entries@);
    assert(views == list_or_empty(list));
    let mut found = false;
    let mut i: usize = 0;
    while i < entries.len()
        invariant
            i <= entries@.len(),
            views == string_views(entries@),
            found == exists|j: int| 0 <= j < i && lowercase_of(#[trigger] views[j]) == name@,
            forall|j: int|
                0 <= j < i && all_ascii(#[trigger] views[j]) ==> lowercase_of(views[j])
                    == ascii_lower(views[j]),
        decreases entries@.len() - i,
    {
        let lower = to_lowercase(entries[i].as_str());
        assert(views[i as int] == entries@[i as int]@);
        if chars_equal(lower.as_str(), name.as_str()) {
            found = true;
        }
        i = i + 1;
    }
    proof {
        let p = opt_view(process)->0;
        if ascii_inputs(opt_view(process), views) {
            let lowered = lower_all(views);
            assert(name@ == ascii_lower(p));
            if found {
                let j = choose|j: int| 0 <= j < views.len() && lowercase_of(#[trigger] views[j]) == name@;
                assert(lowered[j] == ascii_lower(p));
            }
            if lowered.contains(ascii_lower(p)) {
                let j = choose|j: int| 0 <= j < lowered.len() && lowered[j] == ascii_lower(p);
                assert(lowercase_of(views[j]) == name@);
            }
        }
    }
    if white {
        found
    } else {
        !found
    }
}

/// The foreground process name, empty when it is unknown.
pub fn popup_get_foreground_process(name: Option<String>) -> (r: String)
    ensures
        r@ == match name {
            Some(n) => n@,
            None => Seq::<char>::empty(),
        },
{
    match name {
        Some(n) => n,
        None => String::new(),
    }
}

/// Membership ranges over the whole list: with the popup enabled, a
/// process whose lowercase name equals that of the entry at any index is
/// rejected by a blacklist and admitted by a whitelist; a process equal to
/// no entry is admitted by a blacklist and rejected by a whitelist.
pub proof fn lemma_list_membership_decides(
    p: Seq<char>,
    mode: Option<Seq<char>>,
    list: Seq<Seq<char>>,
    i: int,
)
    ensures
        0 <= i < list.len() && lowercase_of(list[i]) == lowercase_of(p) ==> (popup_allowed(
            Some(true),
            Some(p),
            mode,
            list,
        ) <==> is_whitelist(mode)),
        (forall|j: int| 0 <= j < list.len() ==> lowercase_of(#[trigger] list[j]) != lowercase_of(p))
            ==> (popup_allowed(Some(true), Some(p), mode, list) <==> !is_whitelist(mode)),
{
    if 0 <= i < list.len() && lowercase_of(list[i]) == lowercase_of(p) {
        assert(listed(lowercase_of(p), list));
    }
}

/// Appending the process itself to any list makes a blacklist reject it
/// and a whitelist admit it.
pub proof fn lemma_appended_process_is_listed(p: Seq<char>, mode: Option<Seq<char>>, list: Seq<Seq<char>>)
    ensures
        popup_allowed(Some(true), Some(p), mode, list.push(p)) == is_whitelist(mode),
{
    lemma_list_membership_decides(p, mode, list.push(p), list.len() as int);
}

/// The same for names and entries already lowercase: an entry equal to the
/// name at any index decides, and so does its absence.
pub proof fn lemma_lowered_membership_decides(
    n: Seq<char>,
    mode: Option<Seq<char>>,
    lowered: Seq<Seq<char>>,
    i: int,
)
    ensures
        0 <= i < lowered.len() && lowered[i] == n ==> (allowed_for_lowered(
            Some(true),
            Some(n),
            mode,
            lowered,
        ) <==> is_whitelist(mode)),
        (forall|j: int| 0 <= j < lowered.len() ==> #[trigger] lowered[j] != n) ==> (
        allowed_for_lowered(Some(true), Some(n), mode, lowered) <==> !is_whitelist(mode)),
        allowed_for_lowered(Some(true), Some(n), mode, lowered.push(n)) == is_whitelist(mode),
{
    if 0 <= i < lowered.len() && lowered[i] == n {
        assert(lowered.contains(n));
    }
    assert(lowered.push(n)[lowered.len() as int] == n);
    assert(lowered.push(n).contains(n));
}

/// The whitelist and the blacklist are opposites: for a known process with
/// the popup enabled, the same list admits it in one mode exactly when it
/// rejects it in the other.
pub proof fn lemma_whitelist_blacklist_opposite(p: Seq<char>, mode: Seq<char>, list: Seq<Seq<char>>)
    requires
        mode != "whitelist"@,
    ensures
        popup_allowed(Some(true), Some(p), Some("whitelist"@), list) == !popup_allowed(
            Some(true),
            Some(p),
            Some(mode),
            list,
        ),
{
}

/// A disabled popup never appears, whatever the process and lists.
pub proof fn lemma_disabled_never_allowed(
    enabled: Option<bool>,
    process: Option<Seq<char>>,
    mode: Option<Seq<char>>,
    list: Seq<Seq<char>>,
)
    requires
        enabled != Some(true),
    ensures
        !popup_allowed(enabled, process, mode, list),
{
}

/// ASCII process names and list entries are compared without regard to
/// letter case: inputs with the same ASCII lowercase forms get the same
/// answer (see the ASCII clause of `is_popup_enabled_for_current_process`),
/// and a name's ASCII case forms all have the same lowercase form.
pub proof fn lemma_filter_ignores_ascii_case(
    enabled: Option<bool>,
    p: Seq<char>,
    q: Seq<char>,
    mode: Option<Seq<char>>,
    l1: Seq<Seq<char>>,
    l2: Seq<Seq<char>>,
)
    requires
        ascii_lower(p) == ascii_lower(q),
        lower_all(l1) == lower_all(l2),
    ensures
        allowed_for_lowered(enabled, lower_opt(Some(p)), mode, lower_all(l1)) == allowed_for_lowered(
            enabled,
            lower_opt(Some(q)),
            mode,
            lower_all(l2),
        ),
        ascii_lower(ascii_upper(p)) == ascii_lower(p),
        ascii_lower(ascii_lower(p)) == ascii_lower(p),
{
    crate::text::lemma_ascii_case_variants(p);
}

/// The process name is compared without regard to case: two names with the
/// same lowercase form get the same answer.
pub proof fn lemma_process_case_insensitive(
    enabled: Option<bool>,
    p: Seq<char>,
    q: Seq<char>,
    mode: Option<Seq<char>>,
    list: Seq<Seq<char>>,
)
    requires
        lowercase_of(p) == lowercase_of(q),
    ensures
        popup_allowed(enabled, Some(p), mode, list) == popup_allowed(enabled, Some(q), mode, list),
{
}

} // verus!
