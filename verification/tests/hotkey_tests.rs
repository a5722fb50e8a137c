use global_hotkey::hotkey::{Code, HotKey, Modifiers};
use wisprtype::hotkey::{
    normalize_hotkey, parse_hotkey, parse_hotkey_binding, parse_hotkey_setting, parse_virtual_key,
    ActiveHotkey, HotkeyModifiers, VK_SPACE,
};

fn chars(s: &str) -> Vec<char> {
    s.chars().collect()
}

#[test]
fn bindings_are_normalised() {
    assert_eq!(normalize_hotkey(" win + space "), "Super+Space");
    assert_eq!(normalize_hotkey("control+SHIFT+k"), "Ctrl+Shift+K");
    assert_eq!(normalize_hotkey("option++f5"), "Alt+F5");
    assert_eq!(normalize_hotkey(" + "), "");
}

#[test]
fn normalising_twice_changes_nothing() {
    for b in ["win + space", "control+SHIFT+k", "cmd+option+digit1", "meta+F12", "é+ß"] {
        let once = normalize_hotkey(b);
        assert_eq!(normalize_hotkey(&once), once);
    }
}

#[test]
fn virtual_keys() {
    assert_eq!(parse_virtual_key(&chars("Space")), Ok(VK_SPACE));
    assert_eq!(parse_virtual_key(&chars("k")), Ok(0x4B));
    assert_eq!(parse_virtual_key(&chars("KeyA")), Ok(0x41));
    assert_eq!(parse_virtual_key(&chars("7")), Ok(0x37));
    assert_eq!(parse_virtual_key(&chars("Digit0")), Ok(0x30));
    assert_eq!(parse_virtual_key(&chars("F1")), Ok(0x70));
    assert_eq!(parse_virtual_key(&chars("f9")), Ok(0x78));
    assert_eq!(parse_virtual_key(&chars("F10")), Ok(0x79));
    assert_eq!(parse_virtual_key(&chars("F12")), Ok(0x7B));
    assert_eq!(
        parse_virtual_key(&chars("F13")),
        Err("Unsupported hotkey key `F13`".to_string())
    );
    assert_eq!(
        parse_virtual_key(&chars("Enter")),
        Err("Unsupported hotkey key `Enter`".to_string())
    );
}

#[test]
fn bindings_are_read_into_flags() {
    assert_eq!(
        parse_hotkey_binding("ctrl + shift + k", 9),
        Ok(ActiveHotkey {
            id: 9,
            key: 0x4B,
            modifiers: HotkeyModifiers { control: true, alt: false, shift: true, super_key: false },
        })
    );
    assert_eq!(
        parse_hotkey_binding("Super+Space", 1),
        Ok(ActiveHotkey {
            id: 1,
            key: VK_SPACE,
            modifiers: HotkeyModifiers { control: false, alt: false, shift: false, super_key: true },
        })
    );
    assert_eq!(parse_hotkey_binding("  ", 1), Err("Hotkey must include a key".to_string()));
    assert_eq!(
        parse_hotkey_binding("Hyper+K", 1),
        Err("Unsupported hotkey modifier `Hyper`".to_string())
    );
    assert_eq!(
        parse_hotkey_binding("Ctrl+Tab", 1),
        Err("Unsupported hotkey key `Tab`".to_string())
    );
}

#[test]
fn default_binding_is_super_space() {
    let d = ActiveHotkey::default();
    assert_eq!(d.id, 0);
    assert_eq!(d.key, VK_SPACE);
    assert!(d.modifiers.super_key && !d.modifiers.control && !d.modifiers.alt && !d.modifiers.shift);
}

#[test]
fn outside_hotkey_parse() {
    assert_eq!(parse_hotkey("  ").err(), Some("Hotkey cannot be empty".to_string()));
    let hotkey = parse_hotkey("win+space").expect("valid");
    let again = parse_hotkey("Super+Space").expect("valid");
    assert_eq!(hotkey.id(), again.id());
    let err = parse_hotkey("ctrl+nosuchkey").unwrap_err();
    assert!(err.starts_with("Invalid hotkey `ctrl+nosuchkey`: "));
}

#[test]
fn saved_binding_carries_the_registered_hotkey_id() {
    let (hotkey, binding) = parse_hotkey_setting(" win + space ").expect("valid");
    let expected = HotKey::new(Some(Modifiers::SUPER), Code::Space).id();
    assert_eq!(hotkey.id(), expected);
    assert_eq!(binding.id, expected);
    assert_eq!(binding.key, VK_SPACE);
    assert_eq!(
        binding.modifiers,
        HotkeyModifiers { control: false, alt: false, shift: false, super_key: true }
    );
    let (again, again_binding) = parse_hotkey_setting("Super+Space").expect("valid");
    assert_eq!(again.id(), hotkey.id());
    assert_eq!(again_binding, binding);

    let (ctrl_k, ctrl_k_binding) = parse_hotkey_setting("control+shift+k").expect("valid");
    assert_eq!(ctrl_k.id(), HotKey::new(Some(Modifiers::CONTROL | Modifiers::SHIFT), Code::KeyK).id());
    assert_eq!(ctrl_k_binding.id, ctrl_k.id());
    assert_eq!(ctrl_k_binding.key, 0x4B);
}

#[test]
fn saved_binding_errors() {
    assert_eq!(parse_hotkey_setting(" + ").err(), Some("Hotkey cannot be empty".to_string()));
    let err = parse_hotkey_setting("ctrl+nosuchkey").unwrap_err();
    assert!(err.starts_with("Invalid hotkey `ctrl+nosuchkey`: "));
    assert_eq!(
        parse_hotkey_setting("ctrl+tab").err(),
        Some("Unsupported hotkey key `Tab`".to_string())
    );
}
