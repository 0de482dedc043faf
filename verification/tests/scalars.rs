use g600::{ButtonAction, CodecError, Color, Dpi, LedEffect, Modifier, Modifiers, ReportRate};

const ALL_ACTIONS: [ButtonAction; 29] = [
    ButtonAction::Key,
    ButtonAction::LeftClick,
    ButtonAction::RightClick,
    ButtonAction::WheelClick,
    ButtonAction::WheelLeft,
    ButtonAction::WheelRight,
    ButtonAction::M10,
    ButtonAction::M11,
    ButtonAction::M12,
    ButtonAction::M13,
    ButtonAction::M14,
    ButtonAction::M15,
    ButtonAction::M16,
    ButtonAction::M17,
    ButtonAction::M18,
    ButtonAction::M19,
    ButtonAction::M20,
    ButtonAction::DPIUp,
    ButtonAction::DPIDown,
    ButtonAction::DPICycle,
    ButtonAction::ProfileCycle,
    ButtonAction::DPIShift,
    ButtonAction::DPIDefault,
    ButtonAction::GShift,
    ButtonAction::M11a,
    ButtonAction::M12a,
    ButtonAction::X1A,
    ButtonAction::X1B,
    ButtonAction::X1C,
];

const ALL_MODIFIERS: [Modifier; 8] = [
    Modifier::Ctrl,
    Modifier::Shift,
    Modifier::Alt,
    Modifier::Meta,
    Modifier::RCtrl,
    Modifier::RShift,
    Modifier::RAlt,
    Modifier::RMeta,
];

#[test]
fn dpi_encodes_at_the_boundaries() {
    assert_eq!(Dpi::from_human(50), Ok(Dpi(1)));
    assert_eq!(Dpi::from_human(12750), Ok(Dpi(255)));
    assert_eq!(Dpi::from_human(0), Ok(Dpi(0)));
}

#[test]
fn dpi_rejects_what_is_not_a_multiple_of_fifty() {
    assert_eq!(Dpi::from_human(49), Err(CodecError::Range { value: 49 }));
    assert_eq!(Dpi::from_human(51), Err(CodecError::Range { value: 51 }));
    assert_eq!(Dpi::from_human(1), Err(CodecError::Range { value: 1 }));
    assert_eq!(Dpi::from_human(12749), Err(CodecError::Range { value: 12749 }));
}

#[test]
fn dpi_rejects_what_does_not_fit_a_byte() {
    assert_eq!(Dpi::from_human(12800), Err(CodecError::Range { value: 12800 }));
    assert_eq!(Dpi::from_human(65500), Err(CodecError::Range { value: 65500 }));
    assert_eq!(Dpi::from_human(u16::MAX), Err(CodecError::Range { value: u16::MAX }));
}

#[test]
fn dpi_decodes_every_byte() {
    assert_eq!(Dpi(0).to_human(), 0);
    assert_eq!(Dpi(1).to_human(), 50);
    assert_eq!(Dpi(4).to_human(), 200);
    assert_eq!(Dpi(164).to_human(), 8200);
    assert_eq!(Dpi(255).to_human(), 12750);
    for raw in 0u8..=255 {
        let human = Dpi(raw).to_human();
        assert_eq!(human, u16::from(raw) * 50);
        assert_eq!(Dpi::from_human(human), Ok(Dpi(raw)));
    }
}

#[test]
fn dpi_accepts_exactly_the_multiples_up_to_the_maximum() {
    for human in 0u16..=u16::MAX {
        let expected = if human % 50 == 0 && human <= 12750 {
            Ok(Dpi((human / 50) as u8))
        } else {
            Err(CodecError::Range { value: human })
        };
        assert_eq!(Dpi::from_human(human), expected);
    }
}

#[test]
fn color_is_written_as_six_upper_case_digits() {
    assert_eq!(Color { red: 0xFF, green: 0x00, blue: 0xAA }.to_hex(), "FF00AA");
    assert_eq!(Color { red: 0, green: 0, blue: 0 }.to_hex(), "000000");
    assert_eq!(Color { red: 0x01, green: 0x23, blue: 0x45 }.to_hex(), "012345");
    assert_eq!(Color { red: 0x67, green: 0x89, blue: 0xAB }.to_hex(), "6789AB");
    assert_eq!(Color { red: 0xCD, green: 0xEF, blue: 0x0F }.to_hex(), "CDEF0F");
}

#[test]
fn color_is_read_in_either_case() {
    let expected = Ok(Color { red: 0xFF, green: 0x00, blue: 0xAA });
    assert_eq!(Color::from_hex("FF00AA"), expected);
    assert_eq!(Color::from_hex("ff00aa"), expected);
    assert_eq!(Color::from_hex("Ff00aA"), expected);
    assert_eq!(Color::from_hex("09afAF"), Ok(Color { red: 0x09, green: 0xAF, blue: 0xAF }));
}

#[test]
fn color_rejects_other_text() {
    assert_eq!(Color::from_hex(""), Err(CodecError::InvalidColor));
    assert_eq!(Color::from_hex("FF00A"), Err(CodecError::InvalidColor));
    assert_eq!(Color::from_hex("FF00"), Err(CodecError::InvalidColor));
    assert_eq!(Color::from_hex("FF00AA0"), Err(CodecError::InvalidColor));
    assert_eq!(Color::from_hex("FF00AA00"), Err(CodecError::InvalidColor));
    assert_eq!(Color::from_hex("GG00AA"), Err(CodecError::InvalidColor));
    assert_eq!(Color::from_hex("FF 0AA"), Err(CodecError::InvalidColor));
    assert_eq!(Color::from_hex("#FF00A"), Err(CodecError::InvalidColor));
    assert_eq!(Color::from_hex("\u{e9}F00A"), Err(CodecError::InvalidColor));
    assert_eq!(Color::from_hex("\u{e9}FF00AA"), Err(CodecError::InvalidColor));
}

#[test]
fn color_survives_text_and_wire() {
    for red in [0x00u8, 0x0F, 0x7F, 0x80, 0xA5, 0xFF] {
        for green in [0x00u8, 0x10, 0x99, 0xFE] {
            for blue in [0x00u8, 0x01, 0xC3, 0xFF] {
                let color = Color { red, green, blue };
                assert_eq!(Color::from_hex(&color.to_hex()), Ok(color));
                assert_eq!(color.to_bytes(), [red, green, blue]);
                assert_eq!(Color::from_bytes(&color.to_bytes()), color);
            }
        }
    }
}

#[test]
fn action_codes_follow_the_device() {
    assert_eq!(ButtonAction::Key.code(), 0x00);
    assert_eq!(ButtonAction::LeftClick.code(), 0x01);
    assert_eq!(ButtonAction::WheelRight.code(), 0x05);
    assert_eq!(ButtonAction::M10.code(), 0x06);
    assert_eq!(ButtonAction::M20.code(), 0x10);
    assert_eq!(ButtonAction::DPIUp.code(), 0x11);
    assert_eq!(ButtonAction::DPIDefault.code(), 0x16);
    assert_eq!(ButtonAction::GShift.code(), 0x17);
    assert_eq!(ButtonAction::M11a.code(), 0x18);
    assert_eq!(ButtonAction::X1C.code(), 0x1C);
    for (index, action) in ALL_ACTIONS.iter().enumerate() {
        assert_eq!(action.code(), index as u8);
    }
}

#[test]
fn action_decodes_exactly_the_assigned_bytes() {
    for code in 0u8..=255 {
        let decoded = ButtonAction::from_code(code);
        if usize::from(code) < ALL_ACTIONS.len() {
            assert_eq!(decoded, Ok(ALL_ACTIONS[usize::from(code)]));
            assert_eq!(decoded.unwrap().code(), code);
        } else {
            assert_eq!(decoded, Err(CodecError::UnknownAction { code }));
        }
    }
}

#[test]
fn unknown_action_is_not_the_default() {
    assert_eq!(ButtonAction::from_code(0x1D), Err(CodecError::UnknownAction { code: 0x1D }));
    assert_eq!(ButtonAction::from_code(0xFF), Err(CodecError::UnknownAction { code: 0xFF }));
    assert_ne!(ButtonAction::from_code(0x1D), Ok(ButtonAction::Key));
}

#[test]
fn only_the_keystroke_is_the_default_action() {
    assert!(ButtonAction::Key.is_default());
    assert_eq!(ButtonAction::default(), ButtonAction::Key);
    for action in ALL_ACTIONS.iter().skip(1) {
        assert!(!action.is_default());
    }
}

#[test]
fn led_effect_codes() {
    assert_eq!(LedEffect::Solid.code(), 0);
    assert_eq!(LedEffect::Breath.code(), 1);
    assert_eq!(LedEffect::Cycle.code(), 2);
    assert_eq!(LedEffect::from_code(0), Ok(LedEffect::Solid));
    assert_eq!(LedEffect::from_code(1), Ok(LedEffect::Breath));
    assert_eq!(LedEffect::from_code(2), Ok(LedEffect::Cycle));
    for code in 3u8..=255 {
        assert_eq!(LedEffect::from_code(code), Err(CodecError::UnknownLedEffect { code }));
    }
}

#[test]
fn report_rate_codes() {
    let rates = [
        ReportRate::Hz1000,
        ReportRate::Hz500,
        ReportRate::Hz333,
        ReportRate::Hz250,
        ReportRate::Hz200,
        ReportRate::Hz166,
        ReportRate::Hz142,
        ReportRate::Hz125,
    ];
    for (index, rate) in rates.iter().enumerate() {
        assert_eq!(rate.code(), index as u8);
        assert_eq!(ReportRate::from_code(index as u8), Ok(*rate));
    }
    for code in 8u8..=255 {
        assert_eq!(ReportRate::from_code(code), Err(CodecError::UnknownReportRate { code }));
    }
}

#[test]
fn modifier_bits() {
    assert_eq!(Modifier::Ctrl.mask(), 0x01);
    assert_eq!(Modifier::Shift.mask(), 0x02);
    assert_eq!(Modifier::Alt.mask(), 0x04);
    assert_eq!(Modifier::Meta.mask(), 0x08);
    assert_eq!(Modifier::RCtrl.mask(), 0x10);
    assert_eq!(Modifier::RShift.mask(), 0x20);
    assert_eq!(Modifier::RAlt.mask(), 0x40);
    assert_eq!(Modifier::RMeta.mask(), 0x80);
    for (position, modifier) in ALL_MODIFIERS.iter().enumerate() {
        assert_eq!(modifier.mask(), 1u8 << position);
    }
}

#[test]
fn modifiers_are_listed_in_declaration_order() {
    assert_eq!(Modifiers { bits: 0 }.to_list(), Vec::<Modifier>::new());
    assert_eq!(Modifiers { bits: 0x01 }.to_list(), vec![Modifier::Ctrl]);
    assert_eq!(Modifiers { bits: 0x80 }.to_list(), vec![Modifier::RMeta]);
    assert_eq!(
        Modifiers { bits: 0x25 }.to_list(),
        vec![Modifier::Ctrl, Modifier::Alt, Modifier::RShift]
    );
    assert_eq!(Modifiers { bits: 0xFF }.to_list(), ALL_MODIFIERS.to_vec());
}

#[test]
fn modifiers_from_a_list_ignore_order_and_repeats() {
    assert_eq!(Modifiers::from_list(&[]), Modifiers { bits: 0 });
    assert_eq!(Modifiers::from_list(&[Modifier::Shift]), Modifiers { bits: 0x02 });
    let sorted = Modifiers::from_list(&[Modifier::Ctrl, Modifier::Alt, Modifier::RShift]);
    let shuffled = Modifiers::from_list(&[Modifier::RShift, Modifier::Ctrl, Modifier::Alt]);
    let repeated = Modifiers::from_list(&[
        Modifier::Alt,
        Modifier::Alt,
        Modifier::Ctrl,
        Modifier::RShift,
        Modifier::Ctrl,
    ]);
    assert_eq!(sorted, Modifiers { bits: 0x25 });
    assert_eq!(shuffled, sorted);
    assert_eq!(repeated, sorted);
    assert_eq!(Modifiers::from_list(&ALL_MODIFIERS), Modifiers { bits: 0xFF });
}

#[test]
fn modifiers_survive_their_listing() {
    for bits in 0u8..=255 {
        let set = Modifiers { bits };
        let list = set.to_list();
        assert_eq!(list.len() as u32, bits.count_ones());
        assert_eq!(Modifiers::from_list(&list), set);
        assert_eq!(set.is_empty(), bits == 0);
        for modifier in ALL_MODIFIERS {
            assert_eq!(set.contains(modifier), list.contains(&modifier));
            assert_eq!(set.contains(modifier), bits & modifier.mask() != 0);
        }
    }
}

#[test]
fn modifiers_insert_and_contains() {
    let mut set = Modifiers::empty();
    assert!(set.is_empty());
    assert_eq!(set.bits, 0);
    set.insert(Modifier::RAlt);
    assert_eq!(set.bits, 0x40);
    assert!(set.contains(Modifier::RAlt));
    assert!(!set.contains(Modifier::Alt));
    set.insert(Modifier::Ctrl);
    set.insert(Modifier::RAlt);
    assert_eq!(set.bits, 0x41);
    assert!(!set.is_empty());
}
