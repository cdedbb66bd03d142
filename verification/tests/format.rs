use pwvucontrol::format::{
    audio_format, channel_label, channel_position, format_description, format_to_string, i32_to_decimal, SPA_AUDIO_FORMAT_F32P,
    SPA_AUDIO_FORMAT_S16_LE, SPA_AUDIO_FORMAT_S8P, SPA_AUDIO_FORMAT_UNKNOWN,
};

#[test]
fn sample_format_names() {
    assert_eq!(format_to_string(SPA_AUDIO_FORMAT_S16_LE), "S16_LE");
    assert_eq!(format_to_string(SPA_AUDIO_FORMAT_F32P), "F32P");
    assert_eq!(format_to_string(SPA_AUDIO_FORMAT_S8P), "S8P");
    assert_eq!(format_to_string(SPA_AUDIO_FORMAT_UNKNOWN), "UNKNOWN");
    assert_eq!(format_to_string(0x11b), "F32_LE");
    assert_eq!(format_to_string(1), "ENCODED");
    assert_eq!(format_to_string(0x999), "UNKNOWN");
}

#[test]
fn signed_numbers_in_decimal() {
    assert_eq!(i32_to_decimal(0), "0");
    assert_eq!(i32_to_decimal(48000), "48000");
    assert_eq!(i32_to_decimal(-5), "-5");
    assert_eq!(i32_to_decimal(i32::MIN), i32::MIN.to_string());
    assert_eq!(i32_to_decimal(i32::MAX), i32::MAX.to_string());
}

#[test]
fn format_description_reads_channels_rate_and_name() {
    assert_eq!(format_description(2, 48000, "S16_LE"), "2ch 48000Hz S16_LE");
    assert_eq!(format_description(6, 44100, "F32P"), "6ch 44100Hz F32P");
}

#[test]
fn audio_format_keeps_positions() {
    assert!(audio_format(0, 2, 48000, &vec![3, 4]).is_none());
    let f = audio_format(SPA_AUDIO_FORMAT_S16_LE, 2, 48000, &vec![3, 4]).unwrap();
    assert_eq!(f.channels, 2);
    assert_eq!(f.format, SPA_AUDIO_FORMAT_S16_LE);
    assert_eq!(f.rate, 48000);
    assert_eq!(f.positions[0], 3);
    assert_eq!(f.positions[1], 4);
    assert!(f.positions[2..].iter().all(|p| *p == 0));
}

#[test]
fn channel_label_by_name_or_index() {
    assert_eq!(channel_label(0, Some("FL")), "FL");
    assert_eq!(channel_label(12, None), "12");
}

#[test]
fn channel_position_from_the_format() {
    let f = audio_format(SPA_AUDIO_FORMAT_S16_LE, 2, 48000, &vec![3, 4]).unwrap();
    assert_eq!(channel_position(1, Some(&f)), Some(4));
    assert_eq!(channel_position(5, Some(&f)), Some(0));
    assert_eq!(channel_position(1, None), None);
}
