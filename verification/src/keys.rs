//! Editor keyboard shortcuts: matching a binding such as `"Shift+Left"` against a key press,
//! and dispatching a press to the editor command it is bound to.

use vstd::prelude::*;
use crate::config::{Keybinds, KeybindsModel};
use crate::text::{
    ascii_lower_seq, chars_of, eq_ignore_ascii_case, lemma_split_on_len, split_chars, split_on,
    trim, trim_ws,
};

verus! {

/// The named keys a binding can refer to; every other named key is `Other`.
#[derive(Debug, Clone, Copy, PartialEq, Eq, Structural)]
pub enum NamedKey {
    Space,
    ArrowLeft,
    ArrowRight,
    ArrowUp,
    ArrowDown,
    Home,
    End,
    Enter,
    Escape,
    Other,
}

/// A key press as the window reports it.
#[derive(Debug, Clone, PartialEq, Eq)]
pub enum KeyPress {
    Named(NamedKey),
    /// A key that produces text, with that text.
    Character(String),
    Unidentified,
}

pub enum KeyModel {
    Named(NamedKey),
    Character(Seq<char>),
    Unidentified,
}

impl View for KeyPress {
    type V = KeyModel;

    open spec fn view(&self) -> KeyModel {
        match self {
            KeyPress::Named(n) => KeyModel::Named(*n),
            KeyPress::Character(s) => KeyModel::Character(s@),
            KeyPress::Unidentified => KeyModel::Unidentified,
        }
    }
}

/// The modifier keys held during a press.
#[derive(Debug, Clone, Copy, PartialEq, Eq, Structural)]
pub struct Modifiers {
    pub control: bool,
    pub shift: bool,
    pub alt: bool,
    pub logo: bool,
}

/// The name a binding uses for a named key.
pub open spec fn named_key_name(n: NamedKey) -> Option<Seq<char>> {
    match n {
        NamedKey::Space => Some("Space"@),
        NamedKey::ArrowLeft => Some("Left"@),
        NamedKey::ArrowRight => Some("Right"@),
        NamedKey::ArrowUp => Some("Up"@),
        NamedKey::ArrowDown => Some("Down"@),
        NamedKey::Home => Some("Home"@),
        NamedKey::End => Some("End"@),
        NamedKey::Enter => Some("Enter"@),
        NamedKey::Escape => Some("Escape"@),
        NamedKey::Other => None,
    }
}

pub open spec fn same_ignoring_ascii_case(a: Seq<char>, b: Seq<char>) -> bool {
    ascii_lower_seq(a) == ascii_lower_seq(b)
}

/// A key token matches a character key by its text and a named key by its name, both without
/// regard to ASCII case.
pub open spec fn key_token_spec(token: Seq<char>, key: KeyModel) -> bool {
    match key {
        KeyModel::Character(c) => same_ignoring_ascii_case(token, c),
        KeyModel::Named(n) => match named_key_name(n) {
            Some(name) => same_ignoring_ascii_case(token, name),
            None => false,
        },
        KeyModel::Unidentified => false,
    }
}

fn named_key_text(n: NamedKey) -> (r: Option<&'static str>)
    ensures
        match named_key_name(n) {
            Some(name) => r is Some && r->0@ == name,
            None => r is None,
        },
{
    match n {
        NamedKey::Space => Some("Space"),
        NamedKey::ArrowLeft => Some("Left"),
        NamedKey::ArrowRight => Some("Right"),
        NamedKey::ArrowUp => Some("Up"),
        NamedKey::ArrowDown => Some("Down"),
        NamedKey::Home => Some("Home"),
        NamedKey::End => Some("End"),
        NamedKey::Enter => Some("Enter"),
        NamedKey::Escape => Some("Escape"),
        NamedKey::Other => None,
    }
}

/// Whether a key token (the last part of a binding) names the pressed key.
pub fn key_token_matches(token: &str, key: &KeyPress) -> (r: bool)
    ensures
        r == key_token_spec(token@, key@),
{
    let t = chars_of(token);
    match key {
        KeyPress::Character(c) => eq_ignore_ascii_case(&t, &chars_of(c.as_str())),
        KeyPress::Named(n) => match named_key_text(*n) {
            Some(name) => eq_ignore_ascii_case(&t, &chars_of(name)),
            None => false,
        },
        KeyPress::Unidentified => false,
    }
}

/// Which modifier a binding part names, ignoring ASCII case: 0 Ctrl (`ctrl`, `control`),
/// 1 Shift, 2 Alt (`alt`, `option`), 3 the logo key (`cmd`, `command`, `super`, `win`, `logo`);
/// -1 for anything else.
pub open spec fn modifier_kind(part: Seq<char>) -> int {
    let l = ascii_lower_seq(part);
    if l == "ctrl"@ || l == "control"@ {
        0
    } else if l == "shift"@ {
        1
    } else if l == "alt"@ || l == "option"@ {
        2
    } else if l == "cmd"@ || l == "command"@ || l == "super"@ || l == "win"@ || l == "logo"@ {
        3
    } else {
        -1
    }
}

/// The (trimmed) modifier parts of a binding all name a modifier.
pub open spec fn all_modifiers_known(ms: Seq<Seq<char>>) -> bool {
    forall|i: int| 0 <= i < ms.len() ==> modifier_kind(trim_ws(#[trigger] ms[i])) >= 0
}

/// Some (trimmed) modifier part names modifier `k`.
pub open spec fn needs_modifier(ms: Seq<Seq<char>>, k: int) -> bool {
    exists|i: int| 0 <= i < ms.len() && modifier_kind(trim_ws(#[trigger] ms[i])) == k
}

/// A binding matches a press when, after trimming, it is not empty; its `+`-separated parts
/// other than the last all name modifiers; exactly the named modifiers are held; and the last
/// part (trimmed) names the key.
pub open spec fn binding_spec(binding: Seq<char>, key: KeyModel, mods: Modifiers) -> bool {
    let t = trim_ws(binding);
    let parts = split_on(t, '+');
    let ms = parts.drop_last();
    &&& t.len() > 0
    &&& all_modifiers_known(ms)
    &&& mods.control == needs_modifier(ms, 0)
    &&& mods.shift == needs_modifier(ms, 1)
    &&& mods.alt == needs_modifier(ms, 2)
    &&& mods.logo == needs_modifier(ms, 3)
    &&& key_token_spec(trim_ws(parts.last()), key)
}

fn lowered(v: &Vec<char>) -> (r: Vec<char>)
    ensures
        r@ == ascii_lower_seq(v@),
{
    let mut out: Vec<char> = Vec::new();
    let mut i: usize = 0;
    while i < v.len()
        invariant
            i <= v.len(),
            out@ == ascii_lower_seq(v@.take(i as int)),
        decreases v.len() - i,
    {
        out.push(crate::text::to_ascii_lower(v[i]));
        i += 1;
        assert(out@ =~= ascii_lower_seq(v@.take(i as int)));
    }
    assert(v@.take(i as int) =~= v@);
    out
}

fn is_word(v: &Vec<char>, w: &str) -> (r: bool)
    ensures
        r == (v@ == w@),
{
    crate::text::vec_eq(v, &chars_of(w))
}

fn modifier_of(part: &Vec<char>) -> (r: i8)
    ensures
        r as int == modifier_kind(part@),
{
    let l = lowered(part);
    if is_word(&l, "ctrl") || is_word(&l, "control") {
        0
    } else if is_word(&l, "shift") {
        1
    } else if is_word(&l, "alt") || is_word(&l, "option") {
        2
    } else if is_word(&l, "cmd") || is_word(&l, "command") || is_word(&l, "super") || is_word(&l, "win")
        || is_word(&l, "logo") {
        3
    } else {
        -1
    }
}

/// True if `binding` (e.g. `"Shift+Left"`, `"Ctrl+M"`, `"I"`) matches the pressed key and
/// modifiers (see [`binding_spec`]); an empty binding never matches.
pub fn binding_matches(binding: &str, key: &KeyPress, mods: Modifiers) -> (r: bool)
    ensures
        r == binding_spec(binding@, key@, mods),
{
    let t = trim(&chars_of(binding));
    if t.len() == 0 {
        return false;
    }
    let parts = split_chars(&t, '+');
    let ghost ps = split_on(t@, '+');
    proof {
        lemma_split_on_len(t@, '+');
    }
    let ghost ms = ps.drop_last();
    let n = parts.len() - 1;
    let mut ctrl = false;
    let mut shift = false;
    let mut alt = false;
    let mut logo = false;
    let mut i: usize = 0;
    while i < n
        invariant
            n + 1 == parts.len() == ps.len(),
            t@ == trim_ws(binding@),
            t@.len() > 0,
            ps == split_on(t@, '+'),
            ms == ps.drop_last(),
            i <= n,
            forall|k: int| 0 <= k < parts.len() ==> #[trigger] parts[k]@ == ps[k],
            forall|k: int| 0 <= k < i ==> modifier_kind(trim_ws(#[trigger] ms[k])) >= 0,
            ctrl == exists|k: int| 0 <= k < i && modifier_kind(trim_ws(#[trigger] ms[k])) == 0,
            shift == exists|k: int| 0 <= k < i && modifier_kind(trim_ws(#[trigger] ms[k])) == 1,
            alt == exists|k: int| 0 <= k < i && modifier_kind(trim_ws(#[trigger] ms[k])) == 2,
            logo == exists|k: int| 0 <= k < i && modifier_kind(trim_ws(#[trigger] ms[k])) == 3,
        decreases n - i,
    {
        let part = trim(&parts[i]);
        assert(ms[i as int] == parts[i as int]@);
        let kind = modifier_of(&part);
        if kind < 0 {
            assert(!all_modifiers_known(ms));
            return false;
        }
        if kind == 0 {
            ctrl = true;
        } else if kind == 1 {
            shift = true;
        } else if kind == 2 {
            alt = true;
        } else {
            logo = true;
        }
        i += 1;
    }
    if mods.control != ctrl || mods.shift != shift || mods.alt != alt || mods.logo != logo {
        return false;
    }
    let token = trim(&parts[n]);
    assert(ps.last() == parts[n as int]@);
    key_token_matches(crate::text::string_from(&token).as_str(), key)
}

/// An editor action a shortcut can trigger.
#[derive(Debug, Clone, Copy, PartialEq, Eq, Structural)]
pub enum EditorCommand {
    TogglePlay,
    SetIn,
    SetOut,
    FrameBack,
    FrameForward,
    JumpBack,
    JumpForward,
    GoToStart,
    GoToEnd,
    Export,
}

/// The command for a press: the first binding that matches, tried in the order play/pause,
/// set in, set out, frame back, frame forward, jump back, jump forward, go to start, go to end,
/// export; `None` when none matches.
pub open spec fn shortcut_spec(kb: KeybindsModel, key: KeyModel, mods: Modifiers) -> Option<EditorCommand> {
    if binding_spec(kb.play_pause, key, mods) {
        Some(EditorCommand::TogglePlay)
    } else if binding_spec(kb.set_in, key, mods) {
        Some(EditorCommand::SetIn)
    } else if binding_spec(kb.set_out, key, mods) {
        Some(EditorCommand::SetOut)
    } else if binding_spec(kb.frame_back, key, mods) {
        Some(EditorCommand::FrameBack)
    } else if binding_spec(kb.frame_forward, key, mods) {
        Some(EditorCommand::FrameForward)
    } else if binding_spec(kb.jump_back, key, mods) {
        Some(EditorCommand::JumpBack)
    } else if binding_spec(kb.jump_forward, key, mods) {
        Some(EditorCommand::JumpForward)
    } else if binding_spec(kb.go_to_start, key, mods) {
        Some(EditorCommand::GoToStart)
    } else if binding_spec(kb.go_to_end, key, mods) {
        Some(EditorCommand::GoToEnd)
    } else if binding_spec(kb.export, key, mods) {
        Some(EditorCommand::Export)
    } else {
        None
    }
}

/// Dispatch a key press to the editor command bound to it (see [`shortcut_spec`]).
pub fn editor_shortcut(kb: &Keybinds, key: &KeyPress, mods: Modifiers) -> (r: Option<EditorCommand>)
    ensures
        r == shortcut_spec(kb@, key@, mods),
{
    if binding_matches(kb.play_pause.as_str(), key, mods) {
        Some(EditorCommand::TogglePlay)
    } else if binding_matches(kb.set_in.as_str(), key, mods) {
        Some(EditorCommand::SetIn)
    } else if binding_matches(kb.set_out.as_str(), key, mods) {
        Some(EditorCommand::SetOut)
    } else if binding_matches(kb.frame_back.as_str(), key, mods) {
        Some(EditorCommand::FrameBack)
    } else if binding_matches(kb.frame_forward.as_str(), key, mods) {
        Some(EditorCommand::FrameForward)
    } else if binding_matches(kb.jump_back.as_str(), key, mods) {
        Some(EditorCommand::JumpBack)
    } else if binding_matches(kb.jump_forward.as_str(), key, mods) {
        Some(EditorCommand::JumpForward)
    } else if binding_matches(kb.go_to_start.as_str(), key, mods) {
        Some(EditorCommand::GoToStart)
    } else if binding_matches(kb.go_to_end.as_str(), key, mods) {
        Some(EditorCommand::GoToEnd)
    } else if binding_matches(kb.export.as_str(), key, mods) {
        Some(EditorCommand::Export)
    } else {
        None
    }
}

} // verus!
