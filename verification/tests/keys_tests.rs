use qlipq::config::Keybinds;
use qlipq::keys::{binding_matches, editor_shortcut, key_token_matches, EditorCommand, KeyPress, Modifiers, NamedKey};

fn none() -> Modifiers {
    Modifiers { control: false, shift: false, alt: false, logo: false }
}

fn shift() -> Modifiers {
    Modifiers { shift: true, ..none() }
}

fn ctrl() -> Modifiers {
    Modifiers { control: true, ..none() }
}

fn ch(s: &str) -> KeyPress {
    KeyPress::Character(s.to_string())
}

#[test]
fn keybind_matching() {
    assert!(binding_matches("Space", &KeyPress::Named(NamedKey::Space), none()));
    assert!(binding_matches("i", &ch("i"), none()));
    assert!(binding_matches("I", &ch("i"), none()));
    assert!(!binding_matches("I", &ch("i"), shift()));
    assert!(binding_matches("Shift+Left", &KeyPress::Named(NamedKey::ArrowLeft), shift()));
    assert!(!binding_matches("Shift+Left", &KeyPress::Named(NamedKey::ArrowLeft), none()));
    assert!(binding_matches("Ctrl+M", &ch("m"), ctrl()));
    assert!(!binding_matches("Left", &KeyPress::Named(NamedKey::ArrowRight), none()));
    assert!(!binding_matches("", &KeyPress::Named(NamedKey::Space), none()));
}

#[test]
fn modifier_aliases_and_spacing() {
    assert!(binding_matches(" control + shift + k ", &ch("K"), Modifiers { control: true, shift: true, ..none() }));
    assert!(binding_matches("Cmd+S", &ch("s"), Modifiers { logo: true, ..none() }));
    assert!(binding_matches("Option+Home", &KeyPress::Named(NamedKey::Home), Modifiers { alt: true, ..none() }));
    assert!(!binding_matches("Hyper+K", &ch("k"), none()));
    assert!(!binding_matches("Ctrl+M", &ch("m"), Modifiers { control: true, alt: true, ..none() }));
}

#[test]
fn key_tokens_name_keys() {
    assert!(key_token_matches("escape", &KeyPress::Named(NamedKey::Escape)));
    assert!(key_token_matches("DOWN", &KeyPress::Named(NamedKey::ArrowDown)));
    assert!(!key_token_matches("Tab", &KeyPress::Named(NamedKey::Other)));
    assert!(!key_token_matches("x", &KeyPress::Unidentified));
}

#[test]
fn default_shortcuts_dispatch_in_order() {
    let kb = Keybinds::default();
    assert_eq!(editor_shortcut(&kb, &KeyPress::Named(NamedKey::Space), none()), Some(EditorCommand::TogglePlay));
    assert_eq!(editor_shortcut(&kb, &ch("i"), none()), Some(EditorCommand::SetIn));
    assert_eq!(editor_shortcut(&kb, &ch("o"), none()), Some(EditorCommand::SetOut));
    assert_eq!(editor_shortcut(&kb, &KeyPress::Named(NamedKey::ArrowLeft), none()), Some(EditorCommand::FrameBack));
    assert_eq!(editor_shortcut(&kb, &KeyPress::Named(NamedKey::ArrowRight), shift()), Some(EditorCommand::JumpForward));
    assert_eq!(editor_shortcut(&kb, &KeyPress::Named(NamedKey::End), none()), Some(EditorCommand::GoToEnd));
    assert_eq!(editor_shortcut(&kb, &ch("m"), ctrl()), Some(EditorCommand::Export));
    assert_eq!(editor_shortcut(&kb, &ch("m"), none()), None);
}

#[test]
fn first_binding_wins_when_two_collide() {
    let mut kb = Keybinds::default();
    kb.export = "Space".to_string();
    assert_eq!(editor_shortcut(&kb, &KeyPress::Named(NamedKey::Space), none()), Some(EditorCommand::TogglePlay));
}
