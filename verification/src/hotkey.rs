//! Hotkey bindings: normalising a binding such as `win + space` to `Super+Space`,
//! and reading it into the modifier flags and virtual-key code that the engine polls.
use vstd::prelude::*;

use global_hotkey::hotkey::HotKey;

use crate::text::{
    append_chars, append_str, chars_eq_str, chars_of, is_ws, join, join_chars, lacks,
    lemma_split_join, lemma_split_pieces_lack, lemma_subrange_lacks, lemma_trim_fixed,
    lemma_case_chars, lemma_lower_idempotent, lemma_trim_shape, lower, lower_char, split_char, split_on, string_of, to_lower, to_upper_char,
    trim, trim_chars, upper_char,
};

verus! {

/// `global_hotkey::hotkey::HotKey`, a parsed binding. It is carried through as an
/// opaque value: nothing is claimed about its contents.
#[verifier::external_type_specification]
#[verifier::external_body]
pub struct ExHotKey(HotKey);

/// Windows virtual-key code of the space bar.
pub const VK_SPACE: u16 = 0x20;

/// Which modifier keys a binding requires.
#[derive(Debug, Clone, Copy, Default, PartialEq, Eq, Structural)]
pub struct HotkeyModifiers {
    pub control: bool,
    pub alt: bool,
    pub shift: bool,
    pub super_key: bool,
}

/// A registered hotkey: its id, its main key (a Windows virtual-key code) and modifiers.
#[derive(Debug, Clone, Copy, PartialEq, Eq, Structural)]
pub struct ActiveHotkey {
    pub id: u32,
    pub key: u16,
    pub modifiers: HotkeyModifiers,
}

impl Default for ActiveHotkey {
    /// `Super+Space` with id 0.
    fn default() -> (r: Self)
        ensures
            r.id == 0,
            r.key == VK_SPACE,
            r.modifiers == (HotkeyModifiers { control: false, alt: false, shift: false, super_key: true }),
    {
        ActiveHotkey {
            id: 0,
            key: VK_SPACE,
            modifiers: HotkeyModifiers { control: false, alt: false, shift: false, super_key: true },
        }
    }
}

// ---------------------------------------------------------------------------
// Models of the values

/// The trimmed, non-empty pieces of `parts`, in order.
pub open spec fn nonempty_trimmed(parts: Seq<Seq<char>>) -> Seq<Seq<char>>
    decreases parts.len(),
{
    if parts.len() == 0 {
        Seq::empty()
    } else {
        let prev = nonempty_trimmed(parts.drop_last());
        let t = trim(parts.last());
        if t.len() == 0 {
            prev
        } else {
            prev.push(t)
        }
    }
}

/// The tokens of a binding: the trimmed, non-empty pieces between `+` signs.
pub open spec fn binding_tokens(s: Seq<char>) -> Seq<Seq<char>> {
    nonempty_trimmed(split_char(s, '+'))
}

/// A token lowercased, then mapped to its canonical modifier name or capitalised.
pub open spec fn canonical_token(t: Seq<char>) -> Seq<char> {
    let l = lower(t);
    if l == "win"@ || l == "windows"@ || l == "cmd"@ || l == "command"@ || l == "meta"@ {
        "Super"@
    } else if l == "control"@ {
        "Ctrl"@
    } else if l == "option"@ {
        "Alt"@
    } else if l.len() == 0 {
        Seq::empty()
    } else {
        seq![upper_char(l[0])] + l.drop_first()
    }
}

/// The normalised form of a binding: its canonical tokens joined by `+`.
pub open spec fn normalized_binding(s: Seq<char>) -> Seq<char> {
    join(binding_tokens(s).map_values(|t: Seq<char>| canonical_token(t)), seq!['+'])
}

/// Digit value of an ASCII digit.
pub open spec fn digit_value(c: char) -> int {
    c as u32 - '0' as u32
}

/// The virtual-key code that a key token names, if any.
pub open spec fn virtual_key_code(t: Seq<char>) -> Option<u16> {
    let l = lower(t);
    if l == "space"@ {
        Some(VK_SPACE)
    } else if l.len() == 1 && 'a' <= l[0] <= 'z' {
        Some((0x41 + (l[0] as u32 - 'a' as u32)) as u16)
    } else if l.len() == 4 && l[0] == 'k' && l[1] == 'e' && l[2] == 'y' && 'a' <= l[3] <= 'z' {
        Some((0x41 + (l[3] as u32 - 'a' as u32)) as u16)
    } else if l.len() == 1 && '0' <= l[0] <= '9' {
        Some((0x30 + digit_value(l[0])) as u16)
    } else if l.len() == 6 && l[0] == 'd' && l[1] == 'i' && l[2] == 'g' && l[3] == 'i' && l[4] == 't'
        && '0' <= l[5] <= '9' {
        Some((0x30 + digit_value(l[5])) as u16)
    } else if l.len() == 2 && l[0] == 'f' && '1' <= l[1] <= '9' {
        Some((0x70 + digit_value(l[1]) - 1) as u16)
    } else if l.len() == 3 && l[0] == 'f' && l[1] == '1' && '0' <= l[2] <= '2' {
        Some((0x79 + digit_value(l[2])) as u16)
    } else {
        None
    }
}

/// Which modifier a token names, as (control, alt, shift, super), if any.
pub open spec fn modifier_of(t: Seq<char>) -> Option<(bool, bool, bool, bool)> {
    let l = lower(t);
    if l == "ctrl"@ || l == "control"@ {
        Some((true, false, false, false))
    } else if l == "alt"@ || l == "option"@ {
        Some((false, true, false, false))
    } else if l == "shift"@ {
        Some((false, false, true, false))
    } else if l == "super"@ || l == "win"@ || l == "windows"@ || l == "cmd"@ || l == "command"@
        || l == "meta"@ {
        Some((false, false, false, true))
    } else {
        None
    }
}

/// The index of the first token of `ts` that names no modifier.
pub open spec fn first_unsupported_modifier(ts: Seq<Seq<char>>) -> Option<int>
    decreases ts.len(),
{
    if ts.len() == 0 {
        None
    } else {
        match first_unsupported_modifier(ts.drop_last()) {
            Some(i) => Some(i),
            None => if modifier_of(ts.last()) is None {
                Some(ts.len() - 1)
            } else {
                None
            },
        }
    }
}

/// The modifiers that the tokens `ts` name together.
pub open spec fn modifiers_of(ts: Seq<Seq<char>>) -> HotkeyModifiers
    decreases ts.len(),
{
    if ts.len() == 0 {
        HotkeyModifiers { control: false, alt: false, shift: false, super_key: false }
    } else {
        let m = modifiers_of(ts.drop_last());
        match modifier_of(ts.last()) {
            Some((c, a, s, w)) => HotkeyModifiers {
                control: m.control || c,
                alt: m.alt || a,
                shift: m.shift || s,
                super_key: m.super_key || w,
            },
            None => m,
        }
    }
}

/// Why the binding `s` cannot be read into modifiers and a key, if it cannot: it
/// has no token, a token before the last names no modifier, or the last names no key.
pub open spec fn binding_error(s: Seq<char>) -> Option<Seq<char>> {
    let ts = binding_tokens(normalized_binding(s));
    let mods = ts.drop_last();
    if ts.len() == 0 {
        Some("Hotkey must include a key"@)
    } else if first_unsupported_modifier(mods) is Some {
        Some("Unsupported hotkey modifier `"@ + mods[first_unsupported_modifier(mods)->0] + "`"@)
    } else if virtual_key_code(ts.last()) is None {
        Some("Unsupported hotkey key `"@ + ts.last() + "`"@)
    } else {
        None
    }
}

/// The binding `s` read with the id `id`: the last token's key code and the
/// modifiers that the tokens before it name.
pub open spec fn binding_with_id(s: Seq<char>, id: u32) -> ActiveHotkey {
    let ts = binding_tokens(normalized_binding(s));
    ActiveHotkey {
        id,
        key: virtual_key_code(ts.last())->0,
        modifiers: modifiers_of(ts.drop_last()),
    }
}

// ---------------------------------------------------------------------------
// Executable code

fn trimmed_nonempty(parts: &Vec<Vec<char>>) -> (r: Vec<Vec<char>>)
    ensures
        r@.map_values(|w: Vec<char>| w@) == nonempty_trimmed(parts@.map_values(|w: Vec<char>| w@)),
{
    let ghost ps = parts@.map_values(|w: Vec<char>| w@);
    let mut r: Vec<Vec<char>> = Vec::new();
    let mut i: usize = 0;
    while i < parts.len()
        invariant
            i <= parts.len(),
            ps == parts@.map_values(|w: Vec<char>| w@),
            r@.map_values(|w: Vec<char>| w@) == nonempty_trimmed(ps.take(i as int)),
        decreases parts.len() - i,
    {
        let t = trim_chars(parts[i].as_slice());
        assert(ps.take(i + 1).drop_last() =~= ps.take(i as int));
        assert(ps.take(i + 1).last() == parts@[i as int]@);
        if t.len() > 0 {
            r.push(t);
        }
        assert(r@.map_values(|w: Vec<char>| w@) =~= nonempty_trimmed(ps.take(i + 1)));
        i += 1;
    }
    assert(ps.take(parts.len() as int) =~= ps);
    r
}

fn tokens_of(s: &[char]) -> (r: Vec<Vec<char>>)
    ensures
        r@.map_values(|w: Vec<char>| w@) == binding_tokens(s@),
{
    let pieces = split_on(s, '+');
    trimmed_nonempty(&pieces)
}

fn eq_any(l: &[char], options: &[&str]) -> (r: bool)
    ensures
        r == exists|i: int| 0 <= i < options@.len() && l@ == options@[i]@,
{
    let mut i: usize = 0;
    while i < options.len()
        invariant
            i <= options@.len(),
            forall|k: int| 0 <= k < i ==> l@ != options@[k]@,
        decreases options@.len() - i,
    {
        if chars_eq_str(l, options[i]) {
            return true;
        }
        i += 1;
    }
    false
}

fn canonical(t: &[char]) -> (r: Vec<char>)
    ensures
        r@ == canonical_token(t@),
{
    let l = to_lower(t);
    let super_aliases: [&str; 5] = ["win", "windows", "cmd", "command", "meta"];
    let ghost sa = super_aliases@;
    if eq_any(l.as_slice(), &super_aliases) {
        proof {
            let i = choose|i: int| 0 <= i < sa.len() && l@ == sa[i]@;
            assert(sa[0] == "win" && sa[1] == "windows" && sa[2] == "cmd" && sa[3] == "command" && sa[4] == "meta");
            assert(0 <= i < 5);
        }
        chars_of("Super")
    } else {
        proof {
            assert(sa[0] == "win" && sa[1] == "windows" && sa[2] == "cmd" && sa[3] == "command" && sa[4] == "meta");
            assert(l@ != sa[0]@ && l@ != sa[1]@ && l@ != sa[2]@ && l@ != sa[3]@ && l@ != sa[4]@);
        }
        if chars_eq_str(l.as_slice(), "control") {
            chars_of("Ctrl")
        } else if chars_eq_str(l.as_slice(), "option") {
            chars_of("Alt")
        } else if l.len() == 0 {
            Vec::new()
        } else {
            let mut r: Vec<char> = Vec::new();
            r.push(to_upper_char(l[0]));
            let mut k: usize = 1;
            while k < l.len()
                invariant
                    1 <= k <= l@.len(),
                    r@ == seq![upper_char(l@[0])] + l@.subrange(1, k as int),
                decreases l@.len() - k,
            {
                r.push(l[k]);
                k += 1;
                assert(r@ =~= seq![upper_char(l@[0])] + l@.subrange(1, k as int));
            }
            assert(l@.subrange(1, l@.len() as int) =~= l@.drop_first());
            r
        }
    }
}

/// The canonical form of a hotkey binding: the `+`-separated tokens trimmed, empty
/// ones dropped, `win`/`windows`/`cmd`/`command`/`meta` written `Super`, `control`
/// written `Ctrl`, `option` written `Alt`, and every other token lowercased with its
/// first character capitalised; joined again by `+`.
pub fn normalize_hotkey(value: &str) -> (r: String)
    ensures
        r@ == normalized_binding(value@),
{
    let v = chars_of(value);
    let tokens = tokens_of(v.as_slice());
    let ghost ts = tokens@.map_values(|w: Vec<char>| w@);
    let mut canon: Vec<Vec<char>> = Vec::new();
    let mut i: usize = 0;
    while i < tokens.len()
        invariant
            i <= tokens.len(),
            ts == tokens@.map_values(|w: Vec<char>| w@),
            canon@.map_values(|w: Vec<char>| w@) == ts.take(i as int).map_values(
                |t: Seq<char>| canonical_token(t),
            ),
        decreases tokens.len() - i,
    {
        let c = canonical(tokens[i].as_slice());
        assert(ts[i as int] == tokens@[i as int]@);
        let ghost before = canon@;
        canon.push(c);
        proof {
            let lhs = canon@.map_values(|w: Vec<char>| w@);
            let rhs = ts.take(i + 1).map_values(|t: Seq<char>| canonical_token(t));
            assert(ts.len() == tokens@.len());
            assert(before.map_values(|w: Vec<char>| w@).len() == before.len());
            assert(ts.take(i as int).map_values(|t: Seq<char>| canonical_token(t)).len() == i);
            assert(lhs.len() == rhs.len());
            assert forall|k: int| 0 <= k < lhs.len() implies lhs[k] == rhs[k] by {
                if k < i {
                    assert(lhs[k] == before.map_values(|w: Vec<char>| w@)[k]);
                    assert(rhs[k] == ts.take(i as int).map_values(|t: Seq<char>| canonical_token(t))[k]);
                } else {
                    assert(lhs[k] == c@);
                }
            }
            assert(lhs =~= rhs);
        }
        i += 1;
    }
    assert(ts.take(tokens.len() as int) =~= ts);
    let plus: [char; 1] = ['+'];
    assert(plus@ =~= seq!['+']);
    let joined = join_chars(&canon, &plus);
    string_of(joined.as_slice())
}

/// The virtual-key code of a key token (`space`, a letter, a digit or `f1`..`f12`,
/// letters and digits also as `KeyA`/`Digit0`), case-insensitively.
pub fn parse_virtual_key(token: &[char]) -> (r: Result<u16, String>)
    ensures
        virtual_key_code(token@) matches Some(k) ==> r == Ok::<u16, String>(k),
        virtual_key_code(token@) is None ==> (r matches Err(e) && e@ == "Unsupported hotkey key `"@
            + token@ + "`"@),
{
    let l = to_lower(token);
    let n = l.len();
    if chars_eq_str(l.as_slice(), "space") {
        return Ok(VK_SPACE);
    }
    if n == 1 && 'a' <= l[0] && l[0] <= 'z' {
        return Ok((0x41 + (l[0] as u32 - 'a' as u32)) as u16);
    }
    if n == 4 && l[0] == 'k' && l[1] == 'e' && l[2] == 'y' && 'a' <= l[3] && l[3] <= 'z' {
        return Ok((0x41 + (l[3] as u32 - 'a' as u32)) as u16);
    }
    if n == 1 && '0' <= l[0] && l[0] <= '9' {
        return Ok((0x30 + (l[0] as u32 - '0' as u32)) as u16);
    }
    if n == 6 && l[0] == 'd' && l[1] == 'i' && l[2] == 'g' && l[3] == 'i' && l[4] == 't' && '0'
        <= l[5] && l[5] <= '9' {
        return Ok((0x30 + (l[5] as u32 - '0' as u32)) as u16);
    }
    if n == 2 && l[0] == 'f' && '1' <= l[1] && l[1] <= '9' {
        return Ok((0x70 + (l[1] as u32 - '0' as u32) - 1) as u16);
    }
    if n == 3 && l[0] == 'f' && l[1] == '1' && '0' <= l[2] && l[2] <= '2' {
        return Ok((0x79 + (l[2] as u32 - '0' as u32)) as u16);
    }
    let mut msg: Vec<char> = Vec::new();
    append_str(&mut msg, "Unsupported hotkey key `");
    append_chars(&mut msg, token);
    append_str(&mut msg, "`");
    Err(string_of(msg.as_slice()))
}

fn modifier_flags(t: &[char]) -> (r: Option<(bool, bool, bool, bool)>)
    ensures
        r == modifier_of(t@),
{
    let l = to_lower(t);
    let ls = l.as_slice();
    if chars_eq_str(ls, "ctrl") || chars_eq_str(ls, "control") {
        Some((true, false, false, false))
    } else if chars_eq_str(ls, "alt") || chars_eq_str(ls, "option") {
        Some((false, true, false, false))
    } else if chars_eq_str(ls, "shift") {
        Some((false, false, true, false))
    } else if chars_eq_str(ls, "super") || chars_eq_str(ls, "win") || chars_eq_str(ls, "windows")
        || chars_eq_str(ls, "cmd") || chars_eq_str(ls, "command") || chars_eq_str(ls, "meta") {
        Some((false, false, false, true))
    } else {
        None
    }
}

/// Reads a binding such as `Ctrl+Shift+K` into its modifier flags and key code.
///
/// The binding is normalised first; its last token is the key, the others must name
/// modifiers.
pub fn parse_hotkey_binding(value: &str, id: u32) -> (r: Result<ActiveHotkey, String>)
    ensures
        match binding_error(value@) {
            Some(m) => r matches Err(e) && e@ == m,
            None => r == Ok::<ActiveHotkey, String>(binding_with_id(value@, id)),
        },
{
    let normalized = normalize_hotkey(value);
    let nv = chars_of(normalized.as_str());
    let tokens = tokens_of(nv.as_slice());
    let ghost ts = tokens@.map_values(|w: Vec<char>| w@);
    if tokens.len() == 0 {
        return Err(string_of(chars_of("Hotkey must include a key").as_slice()));
    }
    let last = tokens.len() - 1;
    let ghost mods = ts.drop_last();
    let mut modifiers = HotkeyModifiers { control: false, alt: false, shift: false, super_key: false };
    let mut i: usize = 0;
    while i < last
        invariant
            i <= last,
            last == tokens@.len() - 1,
            ts == tokens@.map_values(|w: Vec<char>| w@),
            ts == binding_tokens(normalized_binding(value@)),
            mods == ts.drop_last(),
            first_unsupported_modifier(mods.take(i as int)) is None,
            modifiers == modifiers_of(mods.take(i as int)),
        decreases last - i,
    {
        assert(mods.take(i + 1).drop_last() =~= mods.take(i as int));
        assert(mods.take(i + 1).last() == tokens@[i as int]@);
        match modifier_flags(tokens[i].as_slice()) {
            Some((c, a, s, w)) => {
                modifiers = HotkeyModifiers {
                    control: modifiers.control || c,
                    alt: modifiers.alt || a,
                    shift: modifiers.shift || s,
                    super_key: modifiers.super_key || w,
                };
            },
            None => {
                proof {
                    assert(mods[i as int] == tokens@[i as int]@);
                    lemma_first_unsupported_prefix(mods, i as int);
                }
                let mut msg: Vec<char> = Vec::new();
                append_str(&mut msg, "Unsupported hotkey modifier `");
                append_chars(&mut msg, tokens[i].as_slice());
                append_str(&mut msg, "`");
                return Err(string_of(msg.as_slice()));
            },
        }
        i += 1;
    }
    assert(mods.take(last as int) =~= mods);
    match parse_virtual_key(tokens[last].as_slice()) {
        Ok(key) => Ok(ActiveHotkey { id, key, modifiers }),
        Err(e) => Err(e),
    }
}

/// If the prefix `ts.take(i)` has no unsupported modifier and `ts[i]` is unsupported,
/// then `i` is the first unsupported one.
proof fn lemma_first_unsupported_prefix(ts: Seq<Seq<char>>, i: int)
    requires
        0 <= i < ts.len(),
        first_unsupported_modifier(ts.take(i)) is None,
        modifier_of(ts[i]) is None,
    ensures
        first_unsupported_modifier(ts) == Some(i),
    decreases ts.len(),
{
    if i == ts.len() - 1 {
        assert(ts.drop_last() =~= ts.take(i));
    } else {
        assert(ts.drop_last().take(i) =~= ts.take(i));
        lemma_first_unsupported_prefix(ts.drop_last(), i);
    }
}

/// Whether every character of `s` is ASCII.
pub open spec fn is_ascii_chars(s: Seq<char>) -> bool {
    forall|i: int| 0 <= i < s.len() ==> (s[i] as u32) < 128
}

/// Whether the piece `t` of a binding, trimmed and taken without regard to ASCII
/// case, spells `CmdOrCtrl` in one of the four ways global-hotkey knows.
pub open spec fn names_cmd_or_ctrl(t: Seq<char>) -> bool {
    let l = lower(trim(t));
    l == "commandorcontrol"@ || l == "commandorctrl"@ || l == "cmdorctrl"@ || l == "cmdorcontrol"@
}

/// A binding that global-hotkey reads the same way on every system: ASCII text
/// none of whose `+`-separated pieces is `CmdOrCtrl` (read as Super on macOS and
/// as Ctrl elsewhere).
pub open spec fn portable_binding(s: Seq<char>) -> bool {
    &&& is_ascii_chars(s)
    &&& forall|i: int|
        0 <= i < split_char(s, '+').len() ==> !names_cmd_or_ctrl(#[trigger] split_char(s, '+')[i])
}

/// Whether global-hotkey's parser accepts the binding `s` (`HotKey::try_from`).
/// The set of key names it knows is the crate's own; acceptance depends on the
/// text alone (only the modifier chosen for `CmdOrCtrl` differs between systems).
pub uninterp spec fn hotkey_accepts(s: Seq<char>) -> bool;

/// The display text of global-hotkey's parse error for the binding `s`.
pub uninterp spec fn hotkey_parse_error(s: Seq<char>) -> Seq<char>;

/// The id of the hotkey that global-hotkey's parser makes of the binding `s`: the
/// bits of the modifiers it names, shifted left by 16, or-ed with the key's code.
pub uninterp spec fn parsed_hotkey_id(s: Seq<char>) -> u32;

/// The id that a global-hotkey hotkey carries (`HotKey::id`).
pub uninterp spec fn hotkey_id_of(h: HotKey) -> u32;

/// `HotKey::id` (global-hotkey): returns the id field, unchanged.
#[verifier::external_body]
fn hotkey_id(h: &HotKey) -> (r: u32)
    ensures
        r == hotkey_id_of(*h),
{
    h.id()
}

/// `HotKey::try_from(&str)` (global-hotkey): parses a binding. It succeeds exactly
/// when the parser accepts the text, and a failure is returned as the error's
/// display text. The hotkey's id is the parser's id for the text where the text
/// reads the same on every system; for a `CmdOrCtrl` binding, or one with
/// non-ASCII text, nothing is claimed of it. Nothing is claimed of its other fields.
#[verifier::external_body]
fn hotkey_try_from(s: &str) -> (r: Result<HotKey, String>)
    ensures
        r is Ok <==> hotkey_accepts(s@),
        r matches Err(e) ==> e@ == hotkey_parse_error(s@),
        r matches Ok(h) ==> (portable_binding(s@) ==> hotkey_id_of(h) == parsed_hotkey_id(s@)),
{
    match HotKey::try_from(s) {
        Ok(hotkey) => Ok(hotkey),
        Err(e) => Err(e.to_string()),
    }
}

/// The outcome of parsing the binding `value` once global-hotkey's parser
/// answered `parsed`: the hotkey, or the parser's error prefixed with the binding
/// as the user wrote it.
pub fn finish_hotkey_parse(value: &str, parsed: Result<HotKey, String>) -> (r: Result<HotKey, String>)
    ensures
        match parsed {
            Ok(h) => r == Ok::<HotKey, String>(h),
            Err(e) => r matches Err(m) && m@ == "Invalid hotkey `"@ + value@ + "`: "@ + e@,
        },
{
    match parsed {
        Ok(hotkey) => Ok(hotkey),
        Err(e) => {
            let mut msg: Vec<char> = Vec::new();
            append_str(&mut msg, "Invalid hotkey `");
            append_str(&mut msg, value);
            append_str(&mut msg, "`: ");
            append_str(&mut msg, e.as_str());
            Err(string_of(msg.as_slice()))
        },
    }
}

/// Parses a binding into a `global_hotkey` hotkey, after normalising it: an empty
/// binding is refused, and otherwise it succeeds exactly when global-hotkey
/// accepts the normalised binding, and gives the hotkey that global-hotkey makes
/// of the normalised binding.
pub fn parse_hotkey(value: &str) -> (r: Result<HotKey, String>)
    ensures
        normalized_binding(value@).len() == 0 ==> (r matches Err(e) && e@
            == "Hotkey cannot be empty"@),
        normalized_binding(value@).len() > 0 ==> (r is Ok <==> hotkey_accepts(
            normalized_binding(value@),
        )),
        normalized_binding(value@).len() > 0 && r is Err ==> r->Err_0@ == "Invalid hotkey `"@
            + value@ + "`: "@ + hotkey_parse_error(normalized_binding(value@)),
        r matches Ok(h) ==> (portable_binding(normalized_binding(value@)) ==> hotkey_id_of(h)
            == parsed_hotkey_id(normalized_binding(value@))),
{
    let normalized = normalize_hotkey(value);
    if normalized.as_str().is_empty() {
        return Err(string_of(chars_of("Hotkey cannot be empty").as_slice()));
    }
    finish_hotkey_parse(value, hotkey_try_from(normalized.as_str()))
}

/// Reads a saved binding into the hotkey to register and the binding that the
/// engine polls, which carries the registered hotkey's id. It fails as
/// `parse_hotkey` does, then as `parse_hotkey_binding` does.
pub fn parse_hotkey_setting(value: &str) -> (r: Result<(HotKey, ActiveHotkey), String>)
    ensures
        ({
            let nb = normalized_binding(value@);
            if nb.len() == 0 {
                r matches Err(e) && e@ == "Hotkey cannot be empty"@
            } else if !hotkey_accepts(nb) {
                r matches Err(e) && e@ == "Invalid hotkey `"@ + value@ + "`: "@ + hotkey_parse_error(nb)
            } else {
                match binding_error(value@) {
                    Some(m) => r matches Err(e) && e@ == m,
                    None => {
                        &&& r matches Ok((h, b))
                        &&& b == binding_with_id(value@, hotkey_id_of(h))
                        &&& portable_binding(nb) ==> b.id == parsed_hotkey_id(nb)
                    },
                }
            }
        }),
{
    let hotkey = match parse_hotkey(value) {
        Ok(h) => h,
        Err(e) => return Err(e),
    };
    let id = hotkey_id(&hotkey);
    match parse_hotkey_binding(value, id) {
        Ok(binding) => Ok((hotkey, binding)),
        Err(e) => Err(e),
    }
}

// ---------------------------------------------------------------------------
// Normalising twice

/// A token as normalisation leaves it: non-empty, no whitespace at either end, no `+`.
pub open spec fn is_clean_token(t: Seq<char>) -> bool {
    &&& t.len() > 0
    &&& !is_ws(t[0])
    &&& !is_ws(t.last())
    &&& lacks(t, '+')
}

proof fn lemma_lower_clean(t: Seq<char>)
    requires
        is_clean_token(t),
    ensures
        is_clean_token(lower(t)),
{
    lemma_case_chars(t[0]);
    lemma_case_chars(t.last());
    assert(lower(t).last() == lower_char(t.last()));
    assert forall|i: int| 0 <= i < lower(t).len() implies #[trigger] lower(t)[i] != '+' by {
        lemma_case_chars(t[i]);
        assert(t[i] != '+');
    }
}

/// The trimmed, non-empty pieces of parts that lack `+` are clean tokens.
proof fn lemma_nonempty_trimmed_clean(parts: Seq<Seq<char>>)
    requires
        forall|i: int| 0 <= i < parts.len() ==> lacks(#[trigger] parts[i], '+'),
    ensures
        forall|i: int|
            0 <= i < nonempty_trimmed(parts).len() ==> is_clean_token(
                #[trigger] nonempty_trimmed(parts)[i],
            ),
    decreases parts.len(),
{
    if parts.len() > 0 {
        let init = parts.drop_last();
        assert forall|i: int| 0 <= i < init.len() implies lacks(#[trigger] init[i], '+') by {
            assert(init[i] == parts[i]);
        }
        lemma_nonempty_trimmed_clean(init);
        let last = parts[parts.len() - 1];
        assert(parts.last() == last);
        assert(lacks(last, '+'));
        lemma_trim_shape(last);
        let t = trim(last);
        let prev = nonempty_trimmed(init);
        if t.len() > 0 {
            let (i, j) = choose|i: int, j: int| 0 <= i <= j <= last.len() && t == last.subrange(i, j);
            lemma_subrange_lacks(last, '+', i, j);
            assert(is_clean_token(t));
            assert(nonempty_trimmed(parts) == prev.push(t));
            assert forall|k: int| 0 <= k < prev.push(t).len() implies is_clean_token(
                #[trigger] prev.push(t)[k],
            ) by {
                if k < prev.len() {
                    assert(prev.push(t)[k] == prev[k]);
                }
            }
        } else {
            assert(nonempty_trimmed(parts) == prev);
        }
    }
}

/// Clean tokens are their own trimmed, non-empty pieces.
proof fn lemma_nonempty_trimmed_fixed(ts: Seq<Seq<char>>)
    requires
        forall|i: int| 0 <= i < ts.len() ==> is_clean_token(#[trigger] ts[i]),
    ensures
        nonempty_trimmed(ts) == ts,
    decreases ts.len(),
{
    if ts.len() > 0 {
        let init = ts.drop_last();
        assert forall|i: int| 0 <= i < init.len() implies is_clean_token(#[trigger] init[i]) by {
            assert(init[i] == ts[i]);
        }
        lemma_nonempty_trimmed_fixed(init);
        assert(is_clean_token(ts[ts.len() - 1]));
        assert(ts.last() == ts[ts.len() - 1]);
        lemma_trim_fixed(ts.last());
        assert(init.push(ts.last()) =~= ts);
    }
}

/// The canonical form of a clean token is a clean token, and its own canonical form.
proof fn lemma_canonical_token(t: Seq<char>)
    requires
        is_clean_token(t),
    ensures
        is_clean_token(canonical_token(t)),
        canonical_token(canonical_token(t)) == canonical_token(t),
{
    reveal_strlit("win");
    reveal_strlit("windows");
    reveal_strlit("cmd");
    reveal_strlit("command");
    reveal_strlit("meta");
    reveal_strlit("control");
    reveal_strlit("option");
    reveal_strlit("Super");
    reveal_strlit("Ctrl");
    reveal_strlit("Alt");
    let l = lower(t);
    lemma_lower_clean(t);
    lemma_lower_idempotent(t);
    let c = canonical_token(t);
    if l == "win"@ || l == "windows"@ || l == "cmd"@ || l == "command"@ || l == "meta"@ {
        assert(c == "Super"@);
        assert(lower(c) =~= seq!['s', 'u', 'p', 'e', 'r']);
        assert(canonical_token(c) =~= c);
    } else if l == "control"@ {
        assert(lower(c) =~= seq!['c', 't', 'r', 'l']);
        assert(canonical_token(c) =~= c);
    } else if l == "option"@ {
        assert(lower(c) =~= seq!['a', 'l', 't']);
        assert(canonical_token(c) =~= c);
    } else {
        assert(c == seq![upper_char(l[0])] + l.drop_first());
        lemma_case_chars(l[0]);
        lemma_case_chars(t[0]);
        assert(l[0] == lower_char(t[0]));
        assert(lower_char(upper_char(l[0])) == l[0]);
        assert forall|i: int| 0 <= i < c.len() implies #[trigger] lower(c)[i] == l[i] by {
            if i > 0 {
                assert(c[i] == l[i]);
                lemma_case_chars(t[i]);
                assert(l[i] == lower_char(t[i]));
            }
        }
        assert(lower(c) =~= l);
        assert(c.last() == l.last() || c.len() == 1);
        assert(!is_ws(c[0]));
        assert(!is_ws(c.last()));
        assert forall|i: int| 0 <= i < c.len() implies #[trigger] c[i] != '+' by {
            if i == 0 {
                assert(l[0] != '+');
            } else {
                assert(c[i] == l[i]);
            }
        }
        assert(canonical_token(c) =~= c);
    }
}

/// Normalising a binding that is already normalised changes nothing.
pub proof fn law_normalize_idempotent(value: Seq<char>)
    ensures
        normalized_binding(normalized_binding(value)) == normalized_binding(value),
{
    let parts = split_char(value, '+');
    lemma_split_pieces_lack(value, '+');
    let ts = binding_tokens(value);
    lemma_nonempty_trimmed_clean(parts);
    let cs = ts.map_values(|t: Seq<char>| canonical_token(t));
    assert forall|i: int| 0 <= i < cs.len() implies is_clean_token(#[trigger] cs[i])
        && canonical_token(cs[i]) == cs[i] by {
        assert(is_clean_token(ts[i]));
        lemma_canonical_token(ts[i]);
    }
    let n = normalized_binding(value);
    assert(n == join(cs, seq!['+']));
    if cs.len() == 0 {
        assert(n =~= Seq::<char>::empty());
        assert(split_char(n, '+') =~= seq![Seq::<char>::empty()]);
        reveal_with_fuel(nonempty_trimmed, 2);
        assert(trim(Seq::<char>::empty()) =~= Seq::<char>::empty());
        assert(binding_tokens(n) =~= Seq::<Seq<char>>::empty());
    } else {
        assert forall|i: int| 0 <= i < cs.len() implies lacks(#[trigger] cs[i], '+') by {}
        lemma_split_join(cs, '+');
        lemma_nonempty_trimmed_fixed(cs);
        assert(binding_tokens(n) == cs);
        assert(cs.map_values(|t: Seq<char>| canonical_token(t)) =~= cs);
    }
}

/// A binding and its normalised form read the same: global-hotkey accepts both or
/// neither and gives both the same id, and both read into the same modifiers and
/// key, so a saved normalised binding registers the hotkey the user typed.
pub proof fn law_normalized_binding_reads_the_same(value: Seq<char>, id: u32)
    ensures
        hotkey_accepts(normalized_binding(normalized_binding(value))) == hotkey_accepts(
            normalized_binding(value),
        ),
        parsed_hotkey_id(normalized_binding(normalized_binding(value))) == parsed_hotkey_id(
            normalized_binding(value),
        ),
        binding_error(normalized_binding(value)) == binding_error(value),
        binding_with_id(normalized_binding(value), id) == binding_with_id(value, id),
{
    law_normalize_idempotent(value);
}

/// A token's modifier flags come from its name alone: Ctrl from `ctrl` or `control`,
/// Alt from `alt` or `option`, Shift from `shift`, Super from `super`, `win`,
/// `windows`, `cmd`, `command` or `meta` (all taken without regard to ASCII case),
/// and a token with none of these names is no modifier.
proof fn lemma_token_flags(t: Seq<char>)
    ensures
        ({
            let l = lower(t);
            match modifier_of(t) {
                Some((c, a, s, w)) => {
                    &&& c <==> (l == "ctrl"@ || l == "control"@)
                    &&& a <==> (l == "alt"@ || l == "option"@)
                    &&& s <==> l == "shift"@
                    &&& w <==> (l == "super"@ || l == "win"@ || l == "windows"@ || l == "cmd"@
                        || l == "command"@ || l == "meta"@)
                },
                None => !(l == "ctrl"@ || l == "control"@ || l == "alt"@ || l == "option"@ || l
                    == "shift"@ || l == "super"@ || l == "win"@ || l == "windows"@ || l == "cmd"@
                    || l == "command"@ || l == "meta"@),
            }
        }),
{
    reveal_strlit("ctrl");
    reveal_strlit("control");
    reveal_strlit("alt");
    reveal_strlit("option");
    reveal_strlit("shift");
    reveal_strlit("super");
    reveal_strlit("win");
    reveal_strlit("windows");
    reveal_strlit("cmd");
    reveal_strlit("command");
    reveal_strlit("meta");
    assert("ctrl"@ != "control"@) by { assert("ctrl"@.len() != "control"@.len()); }
    assert("ctrl"@ != "alt"@) by { assert("ctrl"@.len() != "alt"@.len()); }
    assert("ctrl"@ != "option"@) by { assert("ctrl"@.len() != "option"@.len()); }
    assert("ctrl"@ != "shift"@) by { assert("ctrl"@.len() != "shift"@.len()); }
    assert("ctrl"@ != "super"@) by { assert("ctrl"@.len() != "super"@.len()); }
    assert("ctrl"@ != "win"@) by { assert("ctrl"@.len() != "win"@.len()); }
    assert("ctrl"@ != "windows"@) by { assert("ctrl"@.len() != "windows"@.len()); }
    assert("ctrl"@ != "cmd"@) by { assert("ctrl"@.len() != "cmd"@.len()); }
    assert("ctrl"@ != "command"@) by { assert("ctrl"@.len() != "command"@.len()); }
    assert("ctrl"@ != "meta"@) by { assert("ctrl"@[0] != "meta"@[0]); }
    assert("control"@ != "alt"@) by { assert("control"@.len() != "alt"@.len()); }
    assert("control"@ != "option"@) by { assert("control"@.len() != "option"@.len()); }
    assert("control"@ != "shift"@) by { assert("control"@.len() != "shift"@.len()); }
    assert("control"@ != "super"@) by { assert("control"@.len() != "super"@.len()); }
    assert("control"@ != "win"@) by { assert("control"@.len() != "win"@.len()); }
    assert("control"@ != "windows"@) by { assert("control"@[0] != "windows"@[0]); }
    assert("control"@ != "cmd"@) by { assert("control"@.len() != "cmd"@.len()); }
    assert("control"@ != "command"@) by { assert("control"@[2] != "command"@[2]); }
    assert("control"@ != "meta"@) by { assert("control"@.len() != "meta"@.len()); }
    assert("alt"@ != "option"@) by { assert("alt"@.len() != "option"@.len()); }
    assert("alt"@ != "shift"@) by { assert("alt"@.len() != "shift"@.len()); }
    assert("alt"@ != "super"@) by { assert("alt"@.len() != "super"@.len()); }
    assert("alt"@ != "win"@) by { assert("alt"@[0] != "win"@[0]); }
    assert("alt"@ != "windows"@) by { assert("alt"@.len() != "windows"@.len()); }
    assert("alt"@ != "cmd"@) by { assert("alt"@[0] != "cmd"@[0]); }
    assert("alt"@ != "command"@) by { assert("alt"@.len() != "command"@.len()); }
    assert("alt"@ != "meta"@) by { assert("alt"@.len() != "meta"@.len()); }
    assert("option"@ != "shift"@) by { assert("option"@.len() != "shift"@.len()); }
    assert("option"@ != "super"@) by { assert("option"@.len() != "super"@.len()); }
    assert("option"@ != "win"@) by { assert("option"@.len() != "win"@.len()); }
    assert("option"@ != "windows"@) by { assert("option"@.len() != "windows"@.len()); }
    assert("option"@ != "cmd"@) by { assert("option"@.len() != "cmd"@.len()); }
    assert("option"@ != "command"@) by { assert("option"@.len() != "command"@.len()); }
    assert("option"@ != "meta"@) by { assert("option"@.len() != "meta"@.len()); }
    assert("shift"@ != "super"@) by { assert("shift"@[1] != "super"@[1]); }
    assert("shift"@ != "win"@) by { assert("shift"@.len() != "win"@.len()); }
    assert("shift"@ != "windows"@) by { assert("shift"@.len() != "windows"@.len()); }
    assert("shift"@ != "cmd"@) by { assert("shift"@.len() != "cmd"@.len()); }
    assert("shift"@ != "command"@) by { assert("shift"@.len() != "command"@.len()); }
    assert("shift"@ != "meta"@) by { assert("shift"@.len() != "meta"@.len()); }
    assert("super"@ != "win"@) by { assert("super"@.len() != "win"@.len()); }
    assert("super"@ != "windows"@) by { assert("super"@.len() != "windows"@.len()); }
    assert("super"@ != "cmd"@) by { assert("super"@.len() != "cmd"@.len()); }
    assert("super"@ != "command"@) by { assert("super"@.len() != "command"@.len()); }
    assert("super"@ != "meta"@) by { assert("super"@.len() != "meta"@.len()); }
    assert("win"@ != "windows"@) by { assert("win"@.len() != "windows"@.len()); }
    assert("win"@ != "cmd"@) by { assert("win"@[0] != "cmd"@[0]); }
    assert("win"@ != "command"@) by { assert("win"@.len() != "command"@.len()); }
    assert("win"@ != "meta"@) by { assert("win"@.len() != "meta"@.len()); }
    assert("windows"@ != "cmd"@) by { assert("windows"@.len() != "cmd"@.len()); }
    assert("windows"@ != "command"@) by { assert("windows"@[0] != "command"@[0]); }
    assert("windows"@ != "meta"@) by { assert("windows"@.len() != "meta"@.len()); }
    assert("cmd"@ != "command"@) by { assert("cmd"@.len() != "command"@.len()); }
    assert("cmd"@ != "meta"@) by { assert("cmd"@.len() != "meta"@.len()); }
    assert("command"@ != "meta"@) by { assert("command"@.len() != "meta"@.len()); }
    if names_super(t) {
        assert(!names_control(t) && !names_alt(t) && !names_shift(t));
        assert(modifier_of(t) == Some((false, false, false, true)));
    } else {
        assert(modifier_of(t) is None || modifier_of(t) == Some((true, false, false, false))
            || modifier_of(t) == Some((false, true, false, false)) || modifier_of(t) == Some(
            (false, false, true, false),
        ));
    }
}

/// Some token of `ts` satisfies `p`.
spec fn some_token(ts: Seq<Seq<char>>, p: spec_fn(Seq<char>) -> bool) -> bool {
    exists|i: int| 0 <= i < ts.len() && p(#[trigger] ts[i])
}

proof fn lemma_some_token_push(ts: Seq<Seq<char>>, p: spec_fn(Seq<char>) -> bool)
    requires
        ts.len() > 0,
    ensures
        some_token(ts, p) == (some_token(ts.drop_last(), p) || p(ts.last())),
{
    let init = ts.drop_last();
    if some_token(ts, p) {
        let i = choose|i: int| 0 <= i < ts.len() && p(#[trigger] ts[i]);
        if i < init.len() {
            assert(init[i] == ts[i]);
        }
    }
    if some_token(init, p) {
        let i = choose|i: int| 0 <= i < init.len() && p(#[trigger] init[i]);
        assert(init[i] == ts[i]);
    }
    if p(ts.last()) {
        assert(ts[ts.len() - 1] == ts.last());
    }
}

spec fn names_control(t: Seq<char>) -> bool {
    lower(t) == "ctrl"@ || lower(t) == "control"@
}

spec fn names_alt(t: Seq<char>) -> bool {
    lower(t) == "alt"@ || lower(t) == "option"@
}

spec fn names_shift(t: Seq<char>) -> bool {
    lower(t) == "shift"@
}

spec fn names_super(t: Seq<char>) -> bool {
    lower(t) == "super"@ || lower(t) == "win"@ || lower(t) == "windows"@ || lower(t) == "cmd"@
        || lower(t) == "command"@ || lower(t) == "meta"@
}

proof fn lemma_modifier_flags(ts: Seq<Seq<char>>)
    ensures
        modifiers_of(ts).control == some_token(ts, |t: Seq<char>| names_control(t)),
        modifiers_of(ts).alt == some_token(ts, |t: Seq<char>| names_alt(t)),
        modifiers_of(ts).shift == some_token(ts, |t: Seq<char>| names_shift(t)),
        modifiers_of(ts).super_key == some_token(ts, |t: Seq<char>| names_super(t)),
    decreases ts.len(),
{
    if ts.len() > 0 {
        lemma_modifier_flags(ts.drop_last());
        lemma_token_flags(ts.last());
        lemma_some_token_push(ts, |t: Seq<char>| names_control(t));
        lemma_some_token_push(ts, |t: Seq<char>| names_alt(t));
        lemma_some_token_push(ts, |t: Seq<char>| names_shift(t));
        lemma_some_token_push(ts, |t: Seq<char>| names_super(t));
    } else {
        assert(!some_token(ts, |t: Seq<char>| names_control(t)));
        assert(!some_token(ts, |t: Seq<char>| names_alt(t)));
        assert(!some_token(ts, |t: Seq<char>| names_shift(t)));
        assert(!some_token(ts, |t: Seq<char>| names_super(t)));
    }
}

/// Reading a binding sets each modifier flag exactly when some token before the
/// key names that modifier: Ctrl for `ctrl` or `control`, Alt for `alt` or
/// `option`, Shift for `shift`, Super for `super`, `win`, `windows`, `cmd`,
/// `command` or `meta`, all without regard to ASCII case. The key of a letter
/// (`k` or `KeyK`) is the letter's uppercase code, of a digit (`7` or `Digit7`) the
/// digit's code, of `F1` to `F12` the codes from 0x70 on, of `space` the space bar,
/// and the id is the one given.
pub proof fn law_binding_flags(value: Seq<char>, id: u32)
    ensures
        ({
            let ts = binding_tokens(normalized_binding(value));
            let mods = ts.drop_last();
            let l = lower(ts.last());
            let b = binding_with_id(value, id);
            &&& b.id == id
            &&& b.modifiers.control <==> exists|i: int|
                0 <= i < mods.len() && (lower(#[trigger] mods[i]) == "ctrl"@ || lower(mods[i])
                    == "control"@)
            &&& b.modifiers.alt <==> exists|i: int|
                0 <= i < mods.len() && (lower(#[trigger] mods[i]) == "alt"@ || lower(mods[i])
                    == "option"@)
            &&& b.modifiers.shift <==> exists|i: int|
                0 <= i < mods.len() && lower(#[trigger] mods[i]) == "shift"@
            &&& b.modifiers.super_key <==> exists|i: int|
                0 <= i < mods.len() && (lower(#[trigger] mods[i]) == "super"@ || lower(mods[i])
                    == "win"@ || lower(mods[i]) == "windows"@ || lower(mods[i]) == "cmd"@ || lower(
                    mods[i],
                ) == "command"@ || lower(mods[i]) == "meta"@)
            &&& l == "space"@ ==> b.key == 0x20
            &&& l.len() == 1 && 'a' <= l[0] <= 'z' ==> b.key as int == l[0] as int - 32
            &&& l.len() == 1 && '0' <= l[0] <= '9' ==> b.key as int == l[0] as int
            &&& l.len() == 4 && l.take(3) == "key"@ && 'a' <= l[3] <= 'z' ==> b.key as int == l[3] as int
                - 32
            &&& l.len() == 6 && l.take(5) == "digit"@ && '0' <= l[5] <= '9' ==> b.key as int == l[5] as int
            &&& l.len() == 2 && l[0] == 'f' && '1' <= l[1] <= '9' ==> b.key as int == 0x6F + (l[1] as int
                - '0' as int)
            &&& l.len() == 3 && l[0] == 'f' && l[1] == '1' && '0' <= l[2] <= '2' ==> b.key as int == 0x6F
                + 10 + (l[2] as int - '0' as int)
        }),
{
    let ts = binding_tokens(normalized_binding(value));
    lemma_modifier_flags(ts.drop_last());
    reveal_strlit("space");
    reveal_strlit("key");
    reveal_strlit("digit");
    let l = lower(ts.last());
    if l.len() == 4 && l.take(3) == "key"@ {
        assert(l[0] == 'k' && l[1] == 'e' && l[2] == 'y') by {
            assert(l.take(3)[0] == l[0] && l.take(3)[1] == l[1] && l.take(3)[2] == l[2]);
        }
    }
    if l.len() == 6 && l.take(5) == "digit"@ {
        assert(l[0] == 'd' && l[1] == 'i' && l[2] == 'g' && l[3] == 'i' && l[4] == 't') by {
            assert(l.take(5)[0] == l[0] && l.take(5)[1] == l[1] && l.take(5)[2] == l[2]
                && l.take(5)[3] == l[3] && l.take(5)[4] == l[4]);
        }
    }
}

} // verus!
