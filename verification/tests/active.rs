use g600::{ActiveProfile, ACTIVE_PROFILE_REPORT_ID, ACTIVE_PROFILE_SIZE};

#[test]
fn profile_request_sets_flag_and_index() {
    let request = ActiveProfile::profile_request(0xF0, 2);
    assert_eq!(request.id, 0xF0);
    assert_eq!(request.info, 0x80 | (2 << 4));
    assert_eq!(request.info, 0xA0);
    assert_eq!(request.unused, 0);
    assert_eq!(request.to_bytes(), [0xF0, 0xA0, 0x00, 0x00]);
    assert_eq!(request.profile(), 2);
    assert_eq!(request.resolution(), 0);
}

#[test]
fn resolution_request_sets_flag_and_index() {
    let request = ActiveProfile::resolution_request(ACTIVE_PROFILE_REPORT_ID, 3);
    assert_eq!(request.id, 0xF0);
    assert_eq!(request.info, 0x40 | (3 << 1));
    assert_eq!(request.info, 0x46);
    assert_eq!(request.unused, 0);
    assert_eq!(request.to_bytes(), [0xF0, 0x46, 0x00, 0x00]);
    assert_eq!(request.resolution(), 3);
    assert_eq!(request.profile(), 0);
}

#[test]
fn requests_for_every_index_in_range() {
    for index in 0u8..4 {
        let p = ActiveProfile::profile_request(0xF0, index);
        assert_eq!(p.info, 0x80 + 16 * index);
        assert_eq!(p.profile(), index);
        let r = ActiveProfile::resolution_request(0xF0, index);
        assert_eq!(r.info, 0x40 + 2 * index);
        assert_eq!(r.resolution(), index);
    }
}

#[test]
fn request_index_is_cut_to_two_bits() {
    let p = ActiveProfile::profile_request(0xF0, 4);
    assert_eq!(p.info, 0x80);
    assert_eq!(p.profile(), 0);
    let p = ActiveProfile::profile_request(0xF0, 0xFF);
    assert_eq!(p.info, 0xB0);
    assert_eq!(p.profile(), 3);
    assert_eq!(p.resolution(), 0);
    let r = ActiveProfile::resolution_request(0xF0, 6);
    assert_eq!(r.info, 0x44);
    assert_eq!(r.resolution(), 2);
    assert_eq!(r.profile(), 0);
}

#[test]
fn decode_for_display_reads_both_fields() {
    let value = ActiveProfile::from_bytes(&[0xF0, 0x34, 0x00, 0x00]);
    assert_eq!(value.profile(), 3);
    assert_eq!(value.resolution(), 2);
}

#[test]
fn decode_for_display_ignores_flags_and_unused_bits() {
    let plain = ActiveProfile::from_bytes(&[0xF0, 0x12, 0, 0]);
    let noisy = ActiveProfile::from_bytes(&[0xF0, 0x12 | 0x80 | 0x40 | 0x08 | 0x01, 0xAB, 0xCD]);
    assert_eq!(plain.profile(), 1);
    assert_eq!(plain.resolution(), 1);
    assert_eq!(noisy.profile(), 1);
    assert_eq!(noisy.resolution(), 1);
}

#[test]
fn control_value_survives_the_wire() {
    let bytes: [u8; ACTIVE_PROFILE_SIZE] = [0xF0, 0x34, 0x12, 0xEF];
    let value = ActiveProfile::from_bytes(&bytes);
    assert_eq!(value.id, 0xF0);
    assert_eq!(value.info, 0x34);
    assert_eq!(value.unused, 0xEF12);
    assert_eq!(value.to_bytes(), bytes);
}

#[test]
fn control_value_is_shown_with_both_indices() {
    let value = ActiveProfile::from_bytes(&[0xF0, 0x34, 0, 0]);
    assert_eq!(value.to_string(), "ActiveProfile { profile: 3, resolution: 2 }");
    let request = ActiveProfile::profile_request(0xF0, 1);
    assert_eq!(request.to_string(), "ActiveProfile { profile: 1, resolution: 0 }");
}
