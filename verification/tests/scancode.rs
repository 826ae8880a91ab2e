use inm::scancode::dvorak::{active_group_is_dvorak, host_is_dvorak, LayoutProbe};
use inm::scancode::{
    button_mask, dvorak_to_physical, scancode_for, scancode_for_host, HostLayout,
    SPICE_BUTTON_EXTRA, SPICE_BUTTON_LEFT, SPICE_BUTTON_MIDDLE, SPICE_BUTTON_RIGHT,
    SPICE_BUTTON_SIDE, SPICE_BUTTON_WHEEL_DOWN, SPICE_BUTTON_WHEEL_UP,
};

#[test]
fn setxkbmap_dvorak_as_the_first_variant() {
    let query = "rules:      evdev\nmodel:      pc105\nlayout:     us,us\nvariant:    dvorak,\n";
    assert!(active_group_is_dvorak(query));
}

#[test]
fn setxkbmap_dvorak_only_as_the_secondary_group() {
    // The layout the guest VMs use: US first, Dvorak as an alternative.
    let query = "rules:      evdev\nmodel:      pc105\nlayout:     us,us\nvariant:    ,dvorak\n";
    assert!(!active_group_is_dvorak(query));
}

#[test]
fn setxkbmap_plain_dvorak_layout() {
    assert!(active_group_is_dvorak("layout:     dvorak\n"));
}

#[test]
fn localectl_shape() {
    let status = "   System Locale: LANG=en_US.UTF-8\n       VC Keymap: n/a\n      X11 Layout: dvorak\n";
    assert!(active_group_is_dvorak(status));
}

#[test]
fn plain_qwerty() {
    assert!(!active_group_is_dvorak("layout:     us\nvariant:\n"));
}

#[test]
fn shifted_symbol_shares_its_number_keys_scancode() {
    assert_eq!(scancode_for("1"), scancode_for("!"));
    assert_eq!(scancode_for("4"), scancode_for("$"));
    assert_eq!(scancode_for(";"), scancode_for(":"));
}

#[test]
fn dvorak_shifted_symbol_resolves_to_the_physical_key_that_types_it() {
    // Dvorak's "," key sits at the QWERTY "w" position; its shift layer types
    // "<". The physical key sent to the guest must be "w"'s (0x11), not the
    // QWERTY comma key's shifted scancode.
    assert_eq!(
        scancode_for_host("<", HostLayout::Dvorak, true),
        scancode_for("w"),
    );
    // Dvorak's "-" key sits at the QWERTY "'" position; shifted, "_".
    assert_eq!(
        scancode_for_host("_", HostLayout::Dvorak, true),
        scancode_for("'"),
    );
}

#[test]
fn numpad_plus_and_asterisk_are_disambiguated_from_shifted_main_row() {
    // A bare numpad press (no real Shift held) must use the numpad's own
    // dedicated scancode, not the main-row Shift-=/Shift-8 one: sending that
    // would need a Shift the guest never sees held.
    assert_eq!(scancode_for_host("+", HostLayout::Qwerty, false), Some(0x4E));
    assert_eq!(scancode_for_host("*", HostLayout::Qwerty, false), Some(0x37));
    // A real Shift-=/Shift-8 combo keeps resolving to the shifted table.
    assert_eq!(
        scancode_for_host("+", HostLayout::Qwerty, true),
        scancode_for("+"),
    );
    assert_eq!(
        scancode_for_host("*", HostLayout::Qwerty, true),
        scancode_for("*"),
    );
}

#[test]
fn every_named_button_has_a_distinct_mask_bit() {
    let buttons = [
        SPICE_BUTTON_LEFT,
        SPICE_BUTTON_MIDDLE,
        SPICE_BUTTON_RIGHT,
        SPICE_BUTTON_WHEEL_UP,
        SPICE_BUTTON_WHEEL_DOWN,
        SPICE_BUTTON_SIDE,
        SPICE_BUTTON_EXTRA,
    ];
    let mut seen = 0;
    for button in buttons {
        let mask = button_mask(button);
        assert_ne!(mask, 0, "button {button} has no mask bit");
        assert_eq!(seen & mask, 0, "button {button}'s mask bit is reused");
        seen |= mask;
    }
}

#[test]
fn masks_are_the_bits_below_the_numbers() {
    assert_eq!(button_mask(SPICE_BUTTON_LEFT), 1);
    assert_eq!(button_mask(SPICE_BUTTON_RIGHT), 4);
    assert_eq!(button_mask(SPICE_BUTTON_EXTRA), 64);
    assert_eq!(button_mask(0), 0);
    assert_eq!(button_mask(8), 0);
}

#[test]
fn scancodes_of_a_few_keys() {
    assert_eq!(scancode_for("a"), Some(0x1E));
    assert_eq!(scancode_for("w"), Some(0x11));
    assert_eq!(scancode_for("escape"), Some(0x01));
    assert_eq!(scancode_for("enter"), Some(0x1C));
    assert_eq!(scancode_for("control"), Some(0x1D));
    assert_eq!(scancode_for("delete"), Some(0xE053));
    assert_eq!(scancode_for("no such key"), None);
    assert_eq!(scancode_for(""), None);
}

#[test]
fn dvorak_moves_letters_and_leaves_named_keys() {
    assert_eq!(dvorak_to_physical("o"), "s");
    assert_eq!(dvorak_to_physical("e"), "d");
    assert_eq!(dvorak_to_physical("a"), "a");
    assert_eq!(dvorak_to_physical("enter"), "enter");
    assert_eq!(scancode_for_host("o", HostLayout::Dvorak, false), scancode_for("s"));
    assert_eq!(scancode_for_host("o", HostLayout::Qwerty, false), scancode_for("o"));
}

#[test]
fn a_forced_layout_overrides_the_probe() {
    assert_eq!(HostLayout::detect(Some("DVORAK"), false), HostLayout::Dvorak);
    assert_eq!(HostLayout::detect(Some("Dvorak"), false), HostLayout::Dvorak);
    assert_eq!(HostLayout::detect(Some("qwerty"), true), HostLayout::Qwerty);
    assert_eq!(HostLayout::detect(None, true), HostLayout::Dvorak);
    assert_eq!(HostLayout::detect(None, false), HostLayout::Qwerty);
    assert_eq!(HostLayout::from_env(Some("dvorak")), HostLayout::Dvorak);
    assert_eq!(HostLayout::from_env(Some("Dvorak")), HostLayout::Qwerty);
    assert_eq!(HostLayout::from_env(None), HostLayout::Qwerty);
    assert_eq!(HostLayout::Dvorak.label(), "Dvorak");
    assert_eq!(HostLayout::Qwerty.label(), "QWERTY");
}

#[test]
fn probes_of_every_host() {
    let mac = LayoutProbe::Mac(Some("com.apple.keylayout.DVORAK-QWERTYCMD".to_string()));
    assert!(host_is_dvorak(&mac));
    assert!(!host_is_dvorak(&LayoutProbe::Mac(Some("com.apple.keylayout.US".to_string()))));
    assert!(!host_is_dvorak(&LayoutProbe::Mac(None)));
    assert!(!host_is_dvorak(&LayoutProbe::Unprobed));
    let fallback = LayoutProbe::X11 {
        setxkbmap: None,
        localectl: Some("      X11 Layout: DVORAK\n".to_string()),
    };
    assert!(host_is_dvorak(&fallback));
    let first = LayoutProbe::X11 {
        setxkbmap: Some("layout:     us\n".to_string()),
        localectl: Some("      X11 Layout: dvorak\n".to_string()),
    };
    assert!(!host_is_dvorak(&first));
    assert!(!host_is_dvorak(&LayoutProbe::X11 { setxkbmap: None, localectl: None }));
}
