use g600::{
    Button, ButtonAction, CodecError, Color, Dpi, HumanButton, HumanProfile, LedEffect, Modifier,
    Modifiers, Profile, ReportRate, NUM_BUTTONS, NUM_DPI, PROFILE_SIZE,
};

/// A record in which every byte is different from its neighbours and every
/// enumeration byte is assigned.
fn sample_record(seed: u8) -> [u8; PROFILE_SIZE] {
    let mut bytes = [0u8; PROFILE_SIZE];
    for (offset, byte) in bytes.iter_mut().enumerate() {
        *byte = (offset as u8).wrapping_mul(7).wrapping_add(seed);
    }
    bytes[4] = seed % 3;
    bytes[11] = seed % 8;
    for slot in 0..NUM_BUTTONS {
        bytes[31 + 3 * slot] = ((slot as u8) + seed) % 29;
        bytes[94 + 3 * slot] = ((slot as u8) * 5 + seed) % 29;
    }
    bytes
}

fn blank_button() -> HumanButton {
    HumanButton { action: None, modifiers: None, key: None }
}

fn sample_document() -> HumanProfile {
    let mut buttons = vec![blank_button(); NUM_BUTTONS];
    buttons[0].action = Some(ButtonAction::LeftClick);
    buttons[1].action = Some(ButtonAction::RightClick);
    buttons[5].action = Some(ButtonAction::GShift);
    buttons[8].key = Some(0x1E);
    buttons[9].modifiers = Some(vec![Modifier::Ctrl, Modifier::Shift]);
    buttons[9].key = Some(0x06);
    let mut g_buttons = vec![blank_button(); NUM_BUTTONS];
    g_buttons[0].action = Some(ButtonAction::LeftClick);
    g_buttons[5].action = Some(ButtonAction::GShift);
    g_buttons[8].modifiers = Some(vec![Modifier::RAlt]);
    g_buttons[8].key = Some(0x3A);
    HumanProfile {
        led_color: String::from("FF8000"),
        led_effect: LedEffect::Breath,
        led_duration: 4,
        report_rate: ReportRate::Hz500,
        dpi_shift: 400,
        dpi_default: 2,
        dpis: [1200, 0, 3200, 8200],
        buttons,
        g_led_color: String::from("00FF7F"),
        g_buttons,
    }
}

#[test]
fn profile_size_is_154() {
    assert_eq!(PROFILE_SIZE, 154);
    let layer = 3 * NUM_BUTTONS;
    assert_eq!(1 + 3 + 1 + 1 + 5 + 1 + 1 + 1 + NUM_DPI + 13 + layer + 3 + layer, 154);
    assert_eq!(Profile::decode(&sample_record(0)).unwrap().encode().len(), 154);
}

#[test]
fn profile_decodes_each_field_at_its_offset() {
    let bytes = sample_record(1);
    let profile = Profile::decode(&bytes).unwrap();
    assert_eq!(profile.id, bytes[0]);
    assert_eq!(profile.led_color, Color { red: bytes[1], green: bytes[2], blue: bytes[3] });
    assert_eq!(profile.led_effect, LedEffect::Breath);
    assert_eq!(profile.led_duration, bytes[5]);
    assert_eq!(profile.unknown1, [bytes[6], bytes[7], bytes[8], bytes[9], bytes[10]]);
    assert_eq!(profile.report_rate, ReportRate::Hz500);
    assert_eq!(profile.dpi_shift, Dpi(bytes[12]));
    assert_eq!(profile.dpi_default, bytes[13]);
    assert_eq!(profile.dpis, [Dpi(bytes[14]), Dpi(bytes[15]), Dpi(bytes[16]), Dpi(bytes[17])]);
    assert_eq!(&profile.unknown2[..], &bytes[18..31]);
    for slot in 0..NUM_BUTTONS {
        let at = 31 + 3 * slot;
        assert_eq!(profile.buttons[slot].action.code(), bytes[at]);
        assert_eq!(profile.buttons[slot].modifiers.bits, bytes[at + 1]);
        assert_eq!(profile.buttons[slot].key, bytes[at + 2]);
        let at = 94 + 3 * slot;
        assert_eq!(profile.g_buttons[slot].action.code(), bytes[at]);
        assert_eq!(profile.g_buttons[slot].modifiers.bits, bytes[at + 1]);
        assert_eq!(profile.g_buttons[slot].key, bytes[at + 2]);
    }
    assert_eq!(profile.g_led_color, Color { red: bytes[91], green: bytes[92], blue: bytes[93] });
}

#[test]
fn profile_wire_round_trip_from_bytes() {
    for seed in 0u8..=255 {
        let bytes = sample_record(seed);
        let profile = Profile::decode(&bytes).unwrap();
        assert_eq!(profile.encode(), bytes);
    }
}

#[test]
fn profile_wire_round_trip_from_value() {
    for seed in [0u8, 3, 77, 200] {
        let mut profile = Profile::decode(&sample_record(seed)).unwrap();
        profile.id = 0xF4;
        profile.led_color = Color { red: 1, green: 2, blue: 3 };
        profile.led_effect = LedEffect::Cycle;
        profile.report_rate = ReportRate::Hz125;
        profile.dpis[2] = Dpi(164);
        profile.unknown1 = [9, 8, 7, 6, 5];
        profile.buttons[19] =
            Button { action: ButtonAction::X1C, modifiers: Modifiers { bits: 0xFF }, key: 0xFF };
        profile.g_buttons[0] =
            Button { action: ButtonAction::GShift, modifiers: Modifiers { bits: 0 }, key: 0 };
        let bytes = profile.encode();
        assert_eq!(Profile::decode(&bytes), Ok(profile));
        assert_eq!(bytes[0], 0xF4);
        assert_eq!(&bytes[1..4], &[1, 2, 3]);
        assert_eq!(bytes[4], 2);
        assert_eq!(&bytes[6..11], &[9, 8, 7, 6, 5]);
        assert_eq!(bytes[11], 7);
        assert_eq!(bytes[16], 164);
        assert_eq!(&bytes[88..91], &[0x1C, 0xFF, 0xFF]);
        assert_eq!(&bytes[94..97], &[0x17, 0x00, 0x00]);
    }
}

#[test]
fn profile_reserved_ranges_pass_through() {
    let mut bytes = sample_record(5);
    for offset in 6..11 {
        bytes[offset] = 0xA0 + offset as u8;
    }
    for offset in 18..31 {
        bytes[offset] = 0xC0 + offset as u8;
    }
    let profile = Profile::decode(&bytes).unwrap();
    assert_eq!(profile.unknown1, [0xA6, 0xA7, 0xA8, 0xA9, 0xAA]);
    assert_eq!(profile.unknown2[0], 0xC0 + 18);
    assert_eq!(profile.unknown2[12], 0xC0 + 30);
    assert_eq!(profile.encode(), bytes);
}

#[test]
fn profile_rejects_every_other_length() {
    let bytes = sample_record(2);
    for length in 0..PROFILE_SIZE {
        assert_eq!(
            Profile::decode(&bytes[..length]),
            Err(CodecError::Size { expected: 154, actual: length })
        );
    }
    for extra in 1..40 {
        let mut longer = bytes.to_vec();
        longer.resize(PROFILE_SIZE + extra, 0);
        assert_eq!(
            Profile::decode(&longer),
            Err(CodecError::Size { expected: 154, actual: 154 + extra })
        );
    }
    assert!(Profile::decode(&bytes).is_ok());
}

#[test]
fn profile_size_error_comes_before_any_other() {
    let mut bytes = sample_record(2).to_vec();
    bytes[4] = 0xEE;
    bytes[31] = 0xEE;
    bytes.push(0);
    assert_eq!(Profile::decode(&bytes), Err(CodecError::Size { expected: 154, actual: 155 }));
}

#[test]
fn profile_rejects_unknown_led_effect() {
    let mut bytes = sample_record(0);
    bytes[4] = 3;
    assert_eq!(Profile::decode(&bytes), Err(CodecError::UnknownLedEffect { code: 3 }));
    bytes[4] = 0xFF;
    assert_eq!(Profile::decode(&bytes), Err(CodecError::UnknownLedEffect { code: 0xFF }));
}

#[test]
fn profile_rejects_unknown_report_rate() {
    let mut bytes = sample_record(0);
    bytes[11] = 8;
    assert_eq!(Profile::decode(&bytes), Err(CodecError::UnknownReportRate { code: 8 }));
}

#[test]
fn profile_rejects_unknown_action_in_any_slot() {
    for slot in 0..NUM_BUTTONS {
        let mut bytes = sample_record(0);
        bytes[31 + 3 * slot] = 0x1D;
        assert_eq!(Profile::decode(&bytes), Err(CodecError::UnknownAction { code: 0x1D }));
        let mut bytes = sample_record(0);
        bytes[94 + 3 * slot] = 0x80 + slot as u8;
        assert_eq!(
            Profile::decode(&bytes),
            Err(CodecError::UnknownAction { code: 0x80 + slot as u8 })
        );
    }
}

#[test]
fn profile_reports_the_first_error_in_layout_order() {
    let mut bytes = sample_record(0);
    bytes[94] = 0xD0;
    bytes[31 + 3 * 7] = 0xB7;
    bytes[31 + 3 * 3] = 0xB3;
    assert_eq!(Profile::decode(&bytes), Err(CodecError::UnknownAction { code: 0xB3 }));
    bytes[31 + 3 * 3] = 0x00;
    assert_eq!(Profile::decode(&bytes), Err(CodecError::UnknownAction { code: 0xB7 }));
    bytes[31 + 3 * 7] = 0x00;
    assert_eq!(Profile::decode(&bytes), Err(CodecError::UnknownAction { code: 0xD0 }));
    bytes[11] = 0x09;
    assert_eq!(Profile::decode(&bytes), Err(CodecError::UnknownReportRate { code: 0x09 }));
    bytes[4] = 0x07;
    assert_eq!(Profile::decode(&bytes), Err(CodecError::UnknownLedEffect { code: 0x07 }));
}

#[test]
fn propagate_gshift_forces_the_second_layer() {
    let mut profile = Profile::decode(&sample_record(0)).unwrap();
    for slot in 0..NUM_BUTTONS {
        profile.buttons[slot].action = ButtonAction::Key;
        profile.g_buttons[slot] = Button {
            action: ButtonAction::M10,
            modifiers: Modifiers { bits: slot as u8 },
            key: 0x30 + slot as u8,
        };
    }
    profile.buttons[5].action = ButtonAction::GShift;
    profile.buttons[19].action = ButtonAction::GShift;
    profile.g_buttons[7].action = ButtonAction::GShift;
    let before = profile;
    profile.propagate_gshift();
    for slot in 0..NUM_BUTTONS {
        let expected = if slot == 5 || slot == 19 || slot == 7 {
            ButtonAction::GShift
        } else {
            ButtonAction::M10
        };
        assert_eq!(profile.g_buttons[slot].action, expected);
        assert_eq!(profile.g_buttons[slot].modifiers, before.g_buttons[slot].modifiers);
        assert_eq!(profile.g_buttons[slot].key, before.g_buttons[slot].key);
    }
    assert_eq!(profile.buttons, before.buttons);
    let mut restored = profile;
    restored.g_buttons = before.g_buttons;
    assert_eq!(restored, before);
}

#[test]
fn propagate_gshift_twice_is_once() {
    for seed in 0u8..=255 {
        let mut profile = Profile::decode(&sample_record(seed)).unwrap();
        profile.buttons[usize::from(seed) % NUM_BUTTONS].action = ButtonAction::GShift;
        let mut once = profile;
        once.propagate_gshift();
        let mut twice = once;
        twice.propagate_gshift();
        assert_eq!(twice, once);
        for slot in 0..NUM_BUTTONS {
            if profile.buttons[slot].action == ButtonAction::GShift {
                assert_eq!(once.g_buttons[slot].action, ButtonAction::GShift);
            } else {
                assert_eq!(once.g_buttons[slot], profile.g_buttons[slot]);
            }
        }
    }
}

#[test]
fn propagate_gshift_leaves_a_consistent_profile_alone() {
    let mut profile = Profile::decode(&sample_record(0)).unwrap();
    for slot in 0..NUM_BUTTONS {
        profile.buttons[slot].action = ButtonAction::LeftClick;
    }
    let before = profile;
    profile.propagate_gshift();
    assert_eq!(profile, before);
}

#[test]
fn profile_editable_form_has_hex_colors_and_scaled_dpi() {
    let mut profile = Profile::decode(&sample_record(0)).unwrap();
    profile.led_color = Color { red: 0xFF, green: 0x80, blue: 0x00 };
    profile.g_led_color = Color { red: 0x00, green: 0xFF, blue: 0x7F };
    profile.dpi_shift = Dpi(8);
    profile.dpis = [Dpi(24), Dpi(0), Dpi(64), Dpi(164)];
    let human = profile.to_human();
    assert_eq!(human.led_color, "FF8000");
    assert_eq!(human.g_led_color, "00FF7F");
    assert_eq!(human.dpi_shift, 400);
    assert_eq!(human.dpis, [1200, 0, 3200, 8200]);
    assert_eq!(human.led_effect, profile.led_effect);
    assert_eq!(human.led_duration, profile.led_duration);
    assert_eq!(human.report_rate, profile.report_rate);
    assert_eq!(human.dpi_default, profile.dpi_default);
    assert_eq!(human.buttons.len(), NUM_BUTTONS);
    assert_eq!(human.g_buttons.len(), NUM_BUTTONS);
    for slot in 0..NUM_BUTTONS {
        assert_eq!(human.buttons[slot], profile.buttons[slot].to_human());
        assert_eq!(human.g_buttons[slot], profile.g_buttons[slot].to_human());
    }
}

#[test]
fn profile_from_document_fills_defaults_and_zeroes() {
    let profile = Profile::from_human(&sample_document()).unwrap();
    assert_eq!(profile.id, 0);
    assert_eq!(profile.unknown1, [0; 5]);
    assert_eq!(profile.unknown2, [0; 13]);
    assert_eq!(profile.led_color, Color { red: 0xFF, green: 0x80, blue: 0x00 });
    assert_eq!(profile.g_led_color, Color { red: 0x00, green: 0xFF, blue: 0x7F });
    assert_eq!(profile.led_effect, LedEffect::Breath);
    assert_eq!(profile.led_duration, 4);
    assert_eq!(profile.report_rate, ReportRate::Hz500);
    assert_eq!(profile.dpi_shift, Dpi(8));
    assert_eq!(profile.dpi_default, 2);
    assert_eq!(profile.dpis, [Dpi(24), Dpi(0), Dpi(64), Dpi(164)]);
    assert_eq!(profile.buttons[0].action, ButtonAction::LeftClick);
    assert_eq!(profile.buttons[2], Button::default());
    assert_eq!(
        profile.buttons[9],
        Button { action: ButtonAction::Key, modifiers: Modifiers { bits: 0x03 }, key: 0x06 }
    );
    assert_eq!(
        profile.g_buttons[8],
        Button { action: ButtonAction::Key, modifiers: Modifiers { bits: 0x40 }, key: 0x3A }
    );
    assert_eq!(profile.g_buttons[19], Button::default());
}

#[test]
fn sparse_document_round_trip_through_the_wire() {
    let document = sample_document();
    let profile = Profile::from_human(&document).unwrap();
    let bytes = profile.encode();
    let decoded = Profile::decode(&bytes).unwrap();
    assert_eq!(decoded, profile);
    assert_eq!(decoded.to_human(), document);
}

#[test]
fn profile_survives_its_editable_form() {
    for seed in 0u8..=255 {
        let profile = Profile::decode(&sample_record(seed)).unwrap();
        let human = profile.to_human();
        let mut expected = profile;
        expected.id = 0;
        expected.unknown1 = [0; 5];
        expected.unknown2 = [0; 13];
        assert_eq!(Profile::from_human(&human), Ok(expected));
        assert_eq!(expected.to_human(), human);
    }
}

#[test]
fn document_with_lower_case_color_is_read_and_rewritten_in_upper_case() {
    let mut document = sample_document();
    document.led_color = String::from("ff8000");
    let profile = Profile::from_human(&document).unwrap();
    assert_eq!(profile.led_color, Color { red: 0xFF, green: 0x80, blue: 0x00 });
    assert_eq!(profile.to_human(), sample_document());
}

#[test]
fn document_with_bad_color_is_rejected() {
    let mut document = sample_document();
    document.led_color = String::from("FF80");
    assert_eq!(Profile::from_human(&document), Err(CodecError::InvalidColor));
    let mut document = sample_document();
    document.g_led_color = String::from("00FF7G");
    assert_eq!(Profile::from_human(&document), Err(CodecError::InvalidColor));
}

#[test]
fn document_with_bad_dpi_is_rejected() {
    let mut document = sample_document();
    document.dpi_shift = 49;
    assert_eq!(Profile::from_human(&document), Err(CodecError::Range { value: 49 }));
    for entry in 0..NUM_DPI {
        let mut document = sample_document();
        document.dpis[entry] = 12800;
        assert_eq!(Profile::from_human(&document), Err(CodecError::Range { value: 12800 }));
    }
    let mut document = sample_document();
    document.dpis = [1200, 1225, 3200, 12800];
    assert_eq!(Profile::from_human(&document), Err(CodecError::Range { value: 1225 }));
}

#[test]
fn document_with_wrong_button_count_is_rejected() {
    let mut document = sample_document();
    document.buttons.pop();
    assert_eq!(
        Profile::from_human(&document),
        Err(CodecError::Size { expected: 20, actual: 19 })
    );
    let mut document = sample_document();
    document.g_buttons.push(blank_button());
    assert_eq!(
        Profile::from_human(&document),
        Err(CodecError::Size { expected: 20, actual: 21 })
    );
    let mut document = sample_document();
    document.buttons.clear();
    assert_eq!(Profile::from_human(&document), Err(CodecError::Size { expected: 20, actual: 0 }));
}

#[test]
fn document_errors_come_in_field_order() {
    let mut document = sample_document();
    document.g_buttons.clear();
    document.g_led_color = String::from("xyz");
    document.buttons.pop();
    document.dpis[3] = 7;
    document.dpi_shift = 3;
    document.led_color = String::from("");
    assert_eq!(Profile::from_human(&document), Err(CodecError::InvalidColor));
    document.led_color = String::from("000000");
    assert_eq!(Profile::from_human(&document), Err(CodecError::Range { value: 3 }));
    document.dpi_shift = 0;
    assert_eq!(Profile::from_human(&document), Err(CodecError::Range { value: 7 }));
    document.dpis[3] = 0;
    assert_eq!(
        Profile::from_human(&document),
        Err(CodecError::Size { expected: 20, actual: 19 })
    );
    document.buttons.push(blank_button());
    assert_eq!(Profile::from_human(&document), Err(CodecError::InvalidColor));
    document.g_led_color = String::from("000000");
    assert_eq!(Profile::from_human(&document), Err(CodecError::Size { expected: 20, actual: 0 }));
}
