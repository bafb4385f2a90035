//! GML names the runtime recognises: view variables, virtual key constants,
//! text alignment constants, and the keys sounds are looked up by.

use vstd::prelude::*;

use crate::lowered::LoweredLogicExpr;
use crate::text::{ascii_lower_char, char_len, push_char, spec_ascii_lower, str_eq, to_ascii_lowercase};

verus! {

/// Whether `key` is one of the view variables assignments write through to the
/// room's first visible view: `view_xview`, `view_yview`, `view_wview`,
/// `view_hview`, bare or with index `[0]`.
pub open spec fn spec_is_view_variable_key(key: Seq<char>) -> bool {
    ||| key == "view_xview"@
    ||| key == "view_yview"@
    ||| key == "view_wview"@
    ||| key == "view_hview"@
    ||| key == "view_xview[0]"@
    ||| key == "view_yview[0]"@
    ||| key == "view_wview[0]"@
    ||| key == "view_hview[0]"@
}

/// Whether `key` is a view variable key (see [`spec_is_view_variable_key`]).
pub fn is_view_variable_key(key: &str) -> (r: bool)
    ensures
        r == spec_is_view_variable_key(key@),
{
    str_eq(key, "view_xview") || str_eq(key, "view_yview") || str_eq(key, "view_wview") || str_eq(key, "view_hview")
        || str_eq(key, "view_xview[0]") || str_eq(key, "view_yview[0]") || str_eq(key, "view_wview[0]")
        || str_eq(key, "view_hview[0]")
}

/// Whether `name` is a view variable read from the room's view.
pub open spec fn spec_is_view_variable_name(name: Seq<char>) -> bool {
    ||| name == "view_xview"@
    ||| name == "view_yview"@
    ||| name == "view_wview"@
    ||| name == "view_hview"@
}

/// Whether `name` is a view variable read from the room's view.
pub fn is_view_variable_name(name: &str) -> (r: bool)
    ensures
        r == spec_is_view_variable_name(name@),
{
    str_eq(name, "view_xview") || str_eq(name, "view_yview") || str_eq(name, "view_wview") || str_eq(name, "view_hview")
}

/// The virtual key code a GML key constant stands for, ignoring ASCII case.
pub open spec fn spec_gm_key_code(name: Seq<char>) -> Option<u16> {
    let n = spec_ascii_lower(name);
    if n == "vk_left"@ {
        Some(0x25)
    } else if n == "vk_up"@ {
        Some(0x26)
    } else if n == "vk_right"@ {
        Some(0x27)
    } else if n == "vk_down"@ {
        Some(0x28)
    } else if n == "vk_shift"@ {
        Some(0x10)
    } else if n == "vk_space"@ {
        Some(0x20)
    } else if n == "vk_enter"@ {
        Some(0x0D)
    } else if n == "vk_escape"@ {
        Some(0x1B)
    } else if n == "vk_control"@ {
        Some(0x11)
    } else if n == "vk_alt"@ {
        Some(0x12)
    } else {
        None
    }
}

/// The virtual key code of a GML key constant (see [`spec_gm_key_code`]).
pub fn gm_key_code(name: &str) -> (r: Option<u16>)
    ensures
        r == spec_gm_key_code(name@),
{
    let lower = to_ascii_lowercase(name);
    let n = lower.as_str();
    if str_eq(n, "vk_left") {
        Some(0x25)
    } else if str_eq(n, "vk_up") {
        Some(0x26)
    } else if str_eq(n, "vk_right") {
        Some(0x27)
    } else if str_eq(n, "vk_down") {
        Some(0x28)
    } else if str_eq(n, "vk_shift") {
        Some(0x10)
    } else if str_eq(n, "vk_space") {
        Some(0x20)
    } else if str_eq(n, "vk_enter") {
        Some(0x0D)
    } else if str_eq(n, "vk_escape") {
        Some(0x1B)
    } else if str_eq(n, "vk_control") {
        Some(0x11)
    } else if str_eq(n, "vk_alt") {
        Some(0x12)
    } else {
        None
    }
}

/// The text alignment a `draw_set_halign` argument names: an identifier or a
/// string `fa_left`, `fa_center` or `fa_right`, ignoring ASCII case.
pub open spec fn spec_draw_align_arg<N>(expr: LoweredLogicExpr<N>) -> Option<Seq<char>> {
    let name = match expr {
        LoweredLogicExpr::Identifier(name) => Some(name@),
        LoweredLogicExpr::LiteralText(name) => Some(name@),
        _ => None,
    };
    match name {
        Some(name) => {
            let n = spec_ascii_lower(name);
            if n == "fa_left"@ {
                Some("left"@)
            } else if n == "fa_center"@ {
                Some("center"@)
            } else if n == "fa_right"@ {
                Some("right"@)
            } else {
                None
            }
        },
        None => None,
    }
}

/// The text alignment `expr` names (see [`spec_draw_align_arg`]).
pub fn draw_align_arg<N>(expr: &LoweredLogicExpr<N>) -> (r: Option<String>)
    ensures
        match r {
            Some(s) => spec_draw_align_arg(*expr) == Some(s@),
            None => spec_draw_align_arg(*expr) is None,
        },
{
    let name = match expr {
        LoweredLogicExpr::Identifier(name) => to_ascii_lowercase(name.as_str()),
        LoweredLogicExpr::LiteralText(name) => to_ascii_lowercase(name.as_str()),
        _ => return None,
    };
    let n = name.as_str();
    if str_eq(n, "fa_left") {
        Some("left".to_owned())
    } else if str_eq(n, "fa_center") {
        Some("center".to_owned())
    } else if str_eq(n, "fa_right") {
        Some("right".to_owned())
    } else {
        None
    }
}

// ----------------------------------------------------------------------------
// Sound keys

/// Whether `c` has the Unicode `White_Space` property.
pub open spec fn spec_is_whitespace(c: char) -> bool {
    ||| ('\u{9}' <= c && c <= '\u{d}')
    ||| c == ' '
    ||| c == '\u{85}'
    ||| c == '\u{a0}'
    ||| c == '\u{1680}'
    ||| ('\u{2000}' <= c && c <= '\u{200a}')
    ||| c == '\u{2028}'
    ||| c == '\u{2029}'
    ||| c == '\u{202f}'
    ||| c == '\u{205f}'
    ||| c == '\u{3000}'
}

/// Whether `c` has the Unicode `White_Space` property.
pub fn is_whitespace(c: char) -> (r: bool)
    ensures
        r == spec_is_whitespace(c),
{
    ('\u{9}' <= c && c <= '\u{d}') || c == ' ' || c == '\u{85}' || c == '\u{a0}' || c == '\u{1680}'
        || ('\u{2000}' <= c && c <= '\u{200a}') || c == '\u{2028}' || c == '\u{2029}' || c == '\u{202f}'
        || c == '\u{205f}' || c == '\u{3000}'
}

/// `s` without its leading whitespace.
pub open spec fn spec_trim_start(s: Seq<char>) -> Seq<char>
    decreases s.len(),
{
    if s.len() > 0 && spec_is_whitespace(s[0]) {
        spec_trim_start(s.drop_first())
    } else {
        s
    }
}

/// `s` without its trailing whitespace.
pub open spec fn spec_trim_end(s: Seq<char>) -> Seq<char>
    decreases s.len(),
{
    if s.len() > 0 && spec_is_whitespace(s.last()) {
        spec_trim_end(s.drop_last())
    } else {
        s
    }
}

/// `s` with every backslash turned into a slash.
pub open spec fn spec_forward_slashes(s: Seq<char>) -> Seq<char> {
    Seq::new(s.len(), |i: int| if s[i] == '\\' { '/' } else { s[i] })
}

/// `s` without its leading `./` prefixes, however many there are.
pub open spec fn spec_strip_dot_slash(s: Seq<char>) -> Seq<char>
    decreases s.len(),
{
    if s.len() >= 2 && s[0] == '.' && s[1] == '/' {
        spec_strip_dot_slash(s.skip(2))
    } else {
        s
    }
}

/// `s` without its leading slashes.
pub open spec fn spec_trim_leading_slashes(s: Seq<char>) -> Seq<char>
    decreases s.len(),
{
    if s.len() > 0 && s[0] == '/' {
        spec_trim_leading_slashes(s.drop_first())
    } else {
        s
    }
}

/// The key a sound is looked up by: the value trimmed of whitespace, with
/// slashes for backslashes, without leading `./` prefixes and then leading
/// slashes, ASCII-lowercased.
pub open spec fn spec_normalize_runtime_sound_key(value: Seq<char>) -> Seq<char> {
    spec_ascii_lower(
        spec_trim_leading_slashes(spec_strip_dot_slash(spec_forward_slashes(spec_trim_end(spec_trim_start(value))))),
    )
}

/// The key a sound is looked up by (see [`spec_normalize_runtime_sound_key`]).
pub fn normalize_runtime_sound_key(value: &str) -> (r: String)
    ensures
        r@ == spec_normalize_runtime_sound_key(value@),
{
    let ghost s = value@;
    let n = char_len(value);
    // Leading whitespace.
    let mut start: usize = 0;
    assert(s.skip(0) =~= s);
    while start < n && is_whitespace(value.get_char(start))
        invariant
            n == s.len(),
            s == value@,
            start <= n,
            spec_trim_start(s) == spec_trim_start(s.skip(start as int)),
        decreases n - start,
    {
        assert(s.skip(start as int).drop_first() =~= s.skip(start + 1));
        start = start + 1;
    }
    let ghost t = s.skip(start as int);
    assert(spec_trim_start(s) == t);
    // Trailing whitespace.
    let mut end: usize = n;
    assert(t.take(t.len() as int) =~= t);
    while end > start && is_whitespace(value.get_char(end - 1))
        invariant
            n == s.len(),
            s == value@,
            start <= end <= n,
            t == s.skip(start as int),
            spec_trim_end(t) == spec_trim_end(t.take(end - start)),
        decreases end - start,
    {
        assert(t.take(end - start).drop_last() =~= t.take(end - start - 1));
        assert(t.take(end - start).last() == s[end - 1]);
        end = end - 1;
    }
    let ghost trimmed = t.take(end - start);
    assert(spec_trim_end(t) == trimmed);
    // Backslashes to slashes.
    let mut key: Vec<char> = Vec::new();
    let mut i: usize = start;
    while i < end
        invariant
            n == s.len(),
            s == value@,
            start <= i <= end <= n,
            trimmed == s.subrange(start as int, end as int),
            key@ == spec_forward_slashes(trimmed.take(i - start)),
        decreases end - i,
    {
        let c = value.get_char(i);
        key.push(if c == '\\' { '/' } else { c });
        assert(key@ =~= spec_forward_slashes(trimmed.take(i + 1 - start)));
        i = i + 1;
    }
    assert(trimmed.take(end - start) =~= trimmed);
    let ghost slashed = key@;
    // Leading "./" prefixes, then leading slashes.
    let len = key.len();
    let mut p: usize = 0;
    assert(slashed.skip(0) =~= slashed);
    while p < len && p + 1 < len && key[p] == '.' && key[p + 1] == '/'
        invariant
            len == slashed.len(),
            key@ == slashed,
            p <= len,
            spec_strip_dot_slash(slashed) == spec_strip_dot_slash(slashed.skip(p as int)),
        decreases len - p,
    {
        assert(slashed.skip(p as int).skip(2) =~= slashed.skip(p + 2));
        p = p + 2;
    }
    let ghost stripped = slashed.skip(p as int);
    assert(spec_strip_dot_slash(slashed) == stripped);
    let ghost p0 = p;
    assert(stripped.skip(0) =~= stripped);
    while p < len && key[p] == '/'
        invariant
            len == slashed.len(),
            key@ == slashed,
            p0 <= p <= len,
            stripped == slashed.skip(p0 as int),
            spec_trim_leading_slashes(stripped) == spec_trim_leading_slashes(slashed.skip(p as int)),
        decreases len - p,
    {
        assert(slashed.skip(p as int).drop_first() =~= slashed.skip(p + 1));
        p = p + 1;
    }
    let ghost rest = slashed.skip(p as int);
    assert(spec_trim_leading_slashes(stripped) == rest);
    // ASCII lowercase.
    let mut out = String::new();
    let mut k: usize = p;
    while k < len
        invariant
            len == slashed.len(),
            key@ == slashed,
            p <= k <= len,
            rest == slashed.skip(p as int),
            out@ == spec_ascii_lower(rest.take(k - p)),
        decreases len - k,
    {
        push_char(&mut out, ascii_lower_char(key[k]));
        assert(out@ =~= spec_ascii_lower(rest.take(k + 1 - p)));
        k = k + 1;
    }
    assert(rest.take(len - p) =~= rest);
    out
}

/// Each GML key constant stands for its virtual key code, whatever the case
/// of its letters (`vk_left` 0x25, `vk_up` 0x26, `vk_right` 0x27, `vk_down`
/// 0x28, `vk_space` 0x20, ...), and only these names stand for one.
pub proof fn law_key_constants_name_their_codes(name: Seq<char>)
    ensures
        spec_ascii_lower(name) == "vk_left"@ ==> spec_gm_key_code(name) == Some(0x25u16),
        spec_ascii_lower(name) == "vk_up"@ ==> spec_gm_key_code(name) == Some(0x26u16),
        spec_ascii_lower(name) == "vk_right"@ ==> spec_gm_key_code(name) == Some(0x27u16),
        spec_ascii_lower(name) == "vk_down"@ ==> spec_gm_key_code(name) == Some(0x28u16),
        spec_ascii_lower(name) == "vk_shift"@ ==> spec_gm_key_code(name) == Some(0x10u16),
        spec_ascii_lower(name) == "vk_space"@ ==> spec_gm_key_code(name) == Some(0x20u16),
        spec_ascii_lower(name) == "vk_enter"@ ==> spec_gm_key_code(name) == Some(0x0Du16),
        spec_ascii_lower(name) == "vk_escape"@ ==> spec_gm_key_code(name) == Some(0x1Bu16),
        spec_ascii_lower(name) == "vk_control"@ ==> spec_gm_key_code(name) == Some(0x11u16),
        spec_ascii_lower(name) == "vk_alt"@ ==> spec_gm_key_code(name) == Some(0x12u16),
        spec_gm_key_code(name) is Some ==> spec_ascii_lower(name) == "vk_left"@ || spec_ascii_lower(name) == "vk_up"@ || spec_ascii_lower(name) == "vk_right"@ || spec_ascii_lower(name) == "vk_down"@ || spec_ascii_lower(name) == "vk_shift"@ || spec_ascii_lower(name) == "vk_space"@ || spec_ascii_lower(name) == "vk_enter"@ || spec_ascii_lower(name) == "vk_escape"@ || spec_ascii_lower(name) == "vk_control"@ || spec_ascii_lower(name) == "vk_alt"@,
{
    reveal_strlit("vk_left");
    reveal_strlit("vk_up");
    reveal_strlit("vk_right");
    reveal_strlit("vk_down");
    reveal_strlit("vk_shift");
    reveal_strlit("vk_space");
    reveal_strlit("vk_enter");
    reveal_strlit("vk_escape");
    reveal_strlit("vk_control");
    reveal_strlit("vk_alt");
    assert("vk_up"@.len() != "vk_left"@.len());
    assert("vk_right"@.len() != "vk_left"@.len());
    assert("vk_right"@.len() != "vk_up"@.len());
    assert("vk_down"@[3] != "vk_left"@[3]);
    assert("vk_down"@.len() != "vk_up"@.len());
    assert("vk_down"@.len() != "vk_right"@.len());
    assert("vk_shift"@.len() != "vk_left"@.len());
    assert("vk_shift"@.len() != "vk_up"@.len());
    assert("vk_shift"@[3] != "vk_right"@[3]);
    assert("vk_shift"@.len() != "vk_down"@.len());
    assert("vk_space"@.len() != "vk_left"@.len());
    assert("vk_space"@.len() != "vk_up"@.len());
    assert("vk_space"@[3] != "vk_right"@[3]);
    assert("vk_space"@.len() != "vk_down"@.len());
    assert("vk_space"@[4] != "vk_shift"@[4]);
    assert("vk_enter"@.len() != "vk_left"@.len());
    assert("vk_enter"@.len() != "vk_up"@.len());
    assert("vk_enter"@[3] != "vk_right"@[3]);
    assert("vk_enter"@.len() != "vk_down"@.len());
    assert("vk_enter"@[3] != "vk_shift"@[3]);
    assert("vk_enter"@[3] != "vk_space"@[3]);
    assert("vk_escape"@.len() != "vk_left"@.len());
    assert("vk_escape"@.len() != "vk_up"@.len());
    assert("vk_escape"@.len() != "vk_right"@.len());
    assert("vk_escape"@.len() != "vk_down"@.len());
    assert("vk_escape"@.len() != "vk_shift"@.len());
    assert("vk_escape"@.len() != "vk_space"@.len());
    assert("vk_escape"@.len() != "vk_enter"@.len());
    assert("vk_control"@.len() != "vk_left"@.len());
    assert("vk_control"@.len() != "vk_up"@.len());
    assert("vk_control"@.len() != "vk_right"@.len());
    assert("vk_control"@.len() != "vk_down"@.len());
    assert("vk_control"@.len() != "vk_shift"@.len());
    assert("vk_control"@.len() != "vk_space"@.len());
    assert("vk_control"@.len() != "vk_enter"@.len());
    assert("vk_control"@.len() != "vk_escape"@.len());
    assert("vk_alt"@.len() != "vk_left"@.len());
    assert("vk_alt"@.len() != "vk_up"@.len());
    assert("vk_alt"@.len() != "vk_right"@.len());
    assert("vk_alt"@.len() != "vk_down"@.len());
    assert("vk_alt"@.len() != "vk_shift"@.len());
    assert("vk_alt"@.len() != "vk_space"@.len());
    assert("vk_alt"@.len() != "vk_enter"@.len());
    assert("vk_alt"@.len() != "vk_escape"@.len());
    assert("vk_alt"@.len() != "vk_control"@.len());
}

/// The view variables written through to the view are `view_xview`,
/// `view_yview`, `view_wview` and `view_hview`, bare or with index `[0]`.
pub proof fn law_view_variables_are_the_view_names(key: Seq<char>)
    ensures
        key == "view_xview"@ ==> spec_is_view_variable_key(key),
        key == "view_yview"@ ==> spec_is_view_variable_key(key),
        key == "view_wview"@ ==> spec_is_view_variable_key(key),
        key == "view_hview"@ ==> spec_is_view_variable_key(key),
        key == "view_xview[0]"@ ==> spec_is_view_variable_key(key),
        key == "view_yview[0]"@ ==> spec_is_view_variable_key(key),
        key == "view_wview[0]"@ ==> spec_is_view_variable_key(key),
        key == "view_hview[0]"@ ==> spec_is_view_variable_key(key),
        spec_is_view_variable_key(key) ==> key == "view_xview"@ || key == "view_yview"@ || key == "view_wview"@ || key == "view_hview"@ || key == "view_xview[0]"@ || key == "view_yview[0]"@ || key == "view_wview[0]"@ || key == "view_hview[0]"@,
{
}

/// The view variables read from the view are `view_xview`, `view_yview`,
/// `view_wview` and `view_hview`.
pub proof fn law_view_names_are_the_four_views(name: Seq<char>)
    ensures
        name == "view_xview"@ ==> spec_is_view_variable_name(name),
        name == "view_yview"@ ==> spec_is_view_variable_name(name),
        name == "view_wview"@ ==> spec_is_view_variable_name(name),
        name == "view_hview"@ ==> spec_is_view_variable_name(name),
        spec_is_view_variable_name(name) ==> name == "view_xview"@ || name == "view_yview"@ || name == "view_wview"@ || name == "view_hview"@,
{
}

/// `fa_left`, `fa_center` and `fa_right` name the left, centre and right
/// alignments, as an identifier or a string and whatever the case of their
/// letters; nothing else names an alignment.
pub proof fn law_alignment_constants<N>(expr: LoweredLogicExpr<N>, name: String)
    requires
        expr == LoweredLogicExpr::<N>::Identifier(name) || expr == LoweredLogicExpr::<N>::LiteralText(name),
    ensures
        spec_ascii_lower(name@) == "fa_left"@ ==> spec_draw_align_arg(expr) == Some("left"@),
        spec_ascii_lower(name@) == "fa_center"@ ==> spec_draw_align_arg(expr) == Some("center"@),
        spec_ascii_lower(name@) == "fa_right"@ ==> spec_draw_align_arg(expr) == Some("right"@),
        spec_draw_align_arg(expr) is Some ==> spec_ascii_lower(name@) == "fa_left"@ || spec_ascii_lower(name@)
            == "fa_center"@ || spec_ascii_lower(name@) == "fa_right"@,
{
    reveal_strlit("fa_left");
    reveal_strlit("fa_center");
    reveal_strlit("fa_right");
    assert("fa_center"@.len() != "fa_left"@.len());
    assert("fa_right"@.len() != "fa_left"@.len());
    assert("fa_right"@.len() != "fa_center"@.len());
}

} // verus!
