use g600::{Button, ButtonAction, CodecError, HumanButton, Modifier, Modifiers};

#[test]
fn button_decodes_three_bytes() {
    let button = Button::decode(&[0x17, 0x03, 0x04]);
    assert_eq!(
        button,
        Ok(Button { action: ButtonAction::GShift, modifiers: Modifiers { bits: 0x03 }, key: 0x04 })
    );
    let button = Button::decode(&[0x00, 0x00, 0x00]);
    assert_eq!(button, Ok(Button::default()));
    let button = Button::decode(&[0x00, 0xFF, 0xFF]);
    assert_eq!(
        button,
        Ok(Button { action: ButtonAction::Key, modifiers: Modifiers { bits: 0xFF }, key: 0xFF })
    );
}

#[test]
fn button_decode_fails_only_on_the_action_byte() {
    assert_eq!(Button::decode(&[0x1D, 0x00, 0x00]), Err(CodecError::UnknownAction { code: 0x1D }));
    assert_eq!(Button::decode(&[0xFF, 0x12, 0x34]), Err(CodecError::UnknownAction { code: 0xFF }));
    for modifiers in [0x00u8, 0x55, 0xFF] {
        for key in [0x00u8, 0x29, 0xFF] {
            assert!(Button::decode(&[0x1C, modifiers, key]).is_ok());
        }
    }
}

#[test]
fn button_encodes_three_bytes() {
    let button =
        Button { action: ButtonAction::DPIUp, modifiers: Modifiers { bits: 0x81 }, key: 0x2C };
    assert_eq!(button.encode(), [0x11, 0x81, 0x2C]);
    assert_eq!(Button::default().encode(), [0x00, 0x00, 0x00]);
}

#[test]
fn button_survives_the_wire() {
    for code in 0u8..29 {
        for modifiers in [0x00u8, 0x01, 0x7E, 0xFF] {
            for key in [0x00u8, 0x04, 0xE7, 0xFF] {
                let raw = [code, modifiers, key];
                let button = Button::decode(&raw).unwrap();
                assert_eq!(button.action.code(), code);
                assert_eq!(button.modifiers.bits, modifiers);
                assert_eq!(button.key, key);
                assert_eq!(button.encode(), raw);
            }
        }
    }
}

#[test]
fn default_button_has_an_empty_editable_form() {
    let human = Button::default().to_human();
    assert_eq!(human, HumanButton { action: None, modifiers: None, key: None });
}

#[test]
fn editable_form_leaves_out_each_default_part() {
    let button =
        Button { action: ButtonAction::Key, modifiers: Modifiers { bits: 0x03 }, key: 0x04 };
    assert_eq!(
        button.to_human(),
        HumanButton {
            action: None,
            modifiers: Some(vec![Modifier::Ctrl, Modifier::Shift]),
            key: Some(0x04),
        }
    );
    let button = Button { action: ButtonAction::GShift, modifiers: Modifiers { bits: 0 }, key: 0 };
    assert_eq!(
        button.to_human(),
        HumanButton { action: Some(ButtonAction::GShift), modifiers: None, key: None }
    );
    let button = Button { action: ButtonAction::Key, modifiers: Modifiers { bits: 0 }, key: 0x1E };
    assert_eq!(button.to_human(), HumanButton { action: None, modifiers: None, key: Some(0x1E) });
}

#[test]
fn editable_form_is_filled_with_defaults() {
    let empty = HumanButton { action: None, modifiers: None, key: None };
    assert_eq!(Button::from_human(&empty), Button::default());
    assert_eq!(
        Button::from_human(&empty),
        Button { action: ButtonAction::Key, modifiers: Modifiers { bits: 0 }, key: 0 }
    );
    let click = HumanButton { action: Some(ButtonAction::LeftClick), modifiers: None, key: None };
    assert_eq!(
        Button::from_human(&click),
        Button { action: ButtonAction::LeftClick, modifiers: Modifiers { bits: 0 }, key: 0 }
    );
    let chord = HumanButton {
        action: None,
        modifiers: Some(vec![Modifier::RMeta, Modifier::Ctrl]),
        key: Some(0x2B),
    };
    assert_eq!(
        Button::from_human(&chord),
        Button { action: ButtonAction::Key, modifiers: Modifiers { bits: 0x81 }, key: 0x2B }
    );
}

#[test]
fn editable_form_may_spell_out_defaults() {
    let explicit =
        HumanButton { action: Some(ButtonAction::Key), modifiers: Some(vec![]), key: Some(0) };
    assert_eq!(Button::from_human(&explicit), Button::default());
    assert_eq!(
        Button::from_human(&explicit).to_human(),
        HumanButton { action: None, modifiers: None, key: None }
    );
}

#[test]
fn button_survives_its_editable_form() {
    for code in 0u8..29 {
        for bits in [0x00u8, 0x01, 0x10, 0xA5, 0xFF] {
            for key in [0x00u8, 0x01, 0x80, 0xFF] {
                let button = Button::decode(&[code, bits, key]).unwrap();
                let human = button.to_human();
                assert_eq!(human.action.is_none(), code == 0);
                assert_eq!(human.modifiers.is_none(), bits == 0);
                assert_eq!(human.key.is_none(), key == 0);
                assert_eq!(Button::from_human(&human), button);
                assert_eq!(Button::from_human(&human).to_human(), human);
            }
        }
    }
}
