use pwvucontrol::mixer::{
    channel_volumes_to_variant, is_valid_volume, lookup, loudest, mixer_updates, parse_channel_volumes,
    parse_mixer_volume_state, volume_payload, MixerUpdate, MixerValue, MixerVolumeState, VolumeChange,
    VolumePayload,
};

fn double(x: f64) -> MixerValue {
    MixerValue::Double(x.to_bits())
}

fn channel_entry(volume: MixerValue, channel: Option<&str>) -> MixerValue {
    let mut entry = vec![("volume".to_string(), volume)];
    if let Some(channel) = channel {
        entry.push(("channel".to_string(), MixerValue::Str(channel.to_string())));
    }
    MixerValue::Dict(entry)
}

fn mixer_map(
    channel_volumes: Option<Vec<(String, MixerValue)>>,
    volume: Option<MixerValue>,
    mute: Option<bool>,
) -> Vec<(String, MixerValue)> {
    let mut map = Vec::new();
    if let Some(channel_volumes) = channel_volumes {
        map.push(("channelVolumes".to_string(), MixerValue::Dict(channel_volumes)));
    }
    if let Some(volume) = volume {
        map.push(("volume".to_string(), volume));
    }
    if let Some(mute) = mute {
        map.push(("mute".to_string(), MixerValue::Bool(mute)));
    }
    map
}

fn bits(v: &[f64]) -> Vec<u64> {
    v.iter().map(|x| x.to_bits()).collect()
}

#[test]
fn parses_unlabeled_contiguous_channels_and_uses_max() {
    let channels = vec![
        ("0".to_string(), channel_entry(double(0.25), None)),
        ("1".to_string(), channel_entry(double(0.75), None)),
    ];

    let state = parse_mixer_volume_state(&mixer_map(Some(channels), None, None));

    assert_eq!(state.channel_volumes, Some(bits(&[0.25, 0.75])));
    assert_eq!(state.volume, Some(0.75_f64.to_bits()));
}

#[test]
fn valid_channel_vector_takes_precedence_over_scalar() {
    let channels = vec![
        ("0".to_string(), channel_entry(double(0.4), Some("FL"))),
        ("1".to_string(), channel_entry(double(0.6), Some("FR"))),
    ];

    let state = parse_mixer_volume_state(&mixer_map(Some(channels), Some(double(0.1)), None));

    assert_eq!(state.volume, Some(0.6_f64.to_bits()));
}

#[test]
fn falls_back_to_scalar_including_zero() {
    let state = parse_mixer_volume_state(&mixer_map(None, Some(double(0.0)), None));
    assert_eq!(state.channel_volumes, None);
    assert_eq!(state.volume, Some(0.0_f64.to_bits()));

    let state = parse_mixer_volume_state(&mixer_map(Some(Vec::new()), Some(double(0.3)), None));
    assert_eq!(state.channel_volumes, None);
    assert_eq!(state.volume, Some(0.3_f64.to_bits()));
}

#[test]
fn invalid_channel_vectors_fall_back_without_allocating_from_indices() {
    let invalid_channels = vec![
        vec![("1".to_string(), channel_entry(double(0.2), None))],
        vec![
            ("0".to_string(), channel_entry(double(0.2), None)),
            ("2".to_string(), channel_entry(double(0.4), None)),
        ],
        vec![("999999999999999999999999999999999999".to_string(), channel_entry(double(0.2), None))],
        vec![("left".to_string(), channel_entry(double(0.2), None))],
        vec![("0".to_string(), MixerValue::Str("wrong entry type".to_string()))],
        vec![("0".to_string(), channel_entry(MixerValue::Uint32(1), None))],
        vec![("0".to_string(), channel_entry(double(-0.1), None))],
        vec![("0".to_string(), channel_entry(double(f64::NAN), None))],
        vec![("0".to_string(), channel_entry(double(f64::INFINITY), None))],
        vec![("0".to_string(), channel_entry(double(f64::MAX), None))],
    ];

    for channels in invalid_channels {
        let state = parse_mixer_volume_state(&mixer_map(Some(channels), Some(double(0.7)), None));
        assert_eq!(state.channel_volumes, None);
        assert_eq!(state.volume, Some(0.7_f64.to_bits()));
    }

    let mut wrong_channel_type = mixer_map(None, Some(double(0.7)), None);
    wrong_channel_type.push((
        "channelVolumes".to_string(),
        MixerValue::Str("wrong channelVolumes type".to_string()),
    ));
    let state = parse_mixer_volume_state(&wrong_channel_type);
    assert_eq!(state.channel_volumes, None);
    assert_eq!(state.volume, Some(0.7_f64.to_bits()));
}

#[test]
fn invalid_scalar_leaves_volume_unset_while_mute_is_independent() {
    for invalid_volume in [
        double(-0.1),
        double(f64::NAN),
        double(f64::INFINITY),
        double(f64::MAX),
        MixerValue::Str("wrong type".to_string()),
    ] {
        let state = parse_mixer_volume_state(&mixer_map(None, Some(invalid_volume), Some(true)));
        assert_eq!(state.channel_volumes, None);
        assert_eq!(state.volume, None);
        assert_eq!(state.mute, Some(true));
    }
}

#[test]
fn outgoing_channels_use_numeric_indices_without_format() {
    let volumes = vec![(0.25_f32 as f64).to_bits(), (0.5_f32 as f64).to_bits()];
    let variant = channel_volumes_to_variant(&volumes, None).expect("nonempty channel payload");
    let channels = match &variant {
        MixerValue::Dict(channels) => channels,
        _ => panic!("channel map"),
    };

    assert_eq!(channels.len(), 2);
    for (index, expected) in [("0", 0.25_f64), ("1", 0.5_f64)] {
        let entry = match lookup(channels, index) {
            Some(MixerValue::Dict(entry)) => entry,
            _ => panic!("channel entry"),
        };
        match lookup(entry, "volume") {
            Some(MixerValue::Double(b)) => assert_eq!(f64::from_bits(*b), expected),
            _ => panic!("volume"),
        }
        assert!(lookup(entry, "channel").is_none());
    }
    assert!(channel_volumes_to_variant(&Vec::new(), None).is_none());
}

#[test]
fn outgoing_channels_carry_known_names() {
    let volumes = bits(&[0.1, 0.2, 0.3]);
    let names = vec![Some("FL".to_string()), None];
    let variant = channel_volumes_to_variant(&volumes, Some(&names)).expect("payload");
    let channels = match &variant {
        MixerValue::Dict(channels) => channels,
        _ => panic!("channel map"),
    };
    let first = match lookup(channels, "0") {
        Some(MixerValue::Dict(entry)) => entry,
        _ => panic!("entry 0"),
    };
    match lookup(first, "channel") {
        Some(MixerValue::Str(name)) => assert_eq!(name, "FL"),
        _ => panic!("channel name"),
    }
    for key in ["1", "2"] {
        match lookup(channels, key) {
            Some(MixerValue::Dict(entry)) => assert!(lookup(entry, "channel").is_none()),
            _ => panic!("entry"),
        }
    }
}

#[test]
fn sent_channel_volumes_read_back_unchanged() {
    let volumes = bits(&[0.0, 1.0, 0.5, -0.0, f32::MAX as f64]);
    let names = vec![Some("FL".to_string()), Some("FR".to_string())];
    let variant = channel_volumes_to_variant(&volumes, Some(&names)).expect("payload");
    assert_eq!(parse_channel_volumes(&variant), Some(volumes));
}

#[test]
fn many_channels_keep_their_order_whatever_the_entry_order() {
    let mut channels = Vec::new();
    for i in (0..12).rev() {
        channels.push((i.to_string(), channel_entry(double(i as f64 / 100.0), None)));
    }
    let value = MixerValue::Dict(channels);
    let expected: Vec<u64> = (0..12).map(|i| (i as f64 / 100.0).to_bits()).collect();
    assert_eq!(parse_channel_volumes(&value), Some(expected));
}

#[test]
fn channel_keys_with_plus_sign_and_zeros_are_indices() {
    let channels = vec![
        ("+1".to_string(), channel_entry(double(0.5), None)),
        ("00".to_string(), channel_entry(double(0.25), None)),
    ];
    assert_eq!(parse_channel_volumes(&MixerValue::Dict(channels)), Some(bits(&[0.25, 0.5])));
}

#[test]
fn two_keys_naming_one_channel_are_refused() {
    let channels = vec![
        ("0".to_string(), channel_entry(double(0.5), None)),
        ("+0".to_string(), channel_entry(double(0.25), None)),
    ];
    assert_eq!(parse_channel_volumes(&MixerValue::Dict(channels)), None);
    let channels = vec![("-0".to_string(), channel_entry(double(0.5), None))];
    assert_eq!(parse_channel_volumes(&MixerValue::Dict(channels)), None);
}

#[test]
fn valid_volumes_are_finite_non_negative_and_within_f32() {
    assert!(is_valid_volume(0.0_f64.to_bits()));
    assert!(is_valid_volume((-0.0_f64).to_bits()));
    assert!(is_valid_volume(1.5_f64.to_bits()));
    assert!(is_valid_volume((f32::MAX as f64).to_bits()));
    assert!(!is_valid_volume(((f32::MAX as f64) * 1.0000001).to_bits()));
    assert!(!is_valid_volume(f64::INFINITY.to_bits()));
    assert!(!is_valid_volume(f64::NAN.to_bits()));
    assert!(!is_valid_volume((-f64::NAN).to_bits()));
    assert!(!is_valid_volume((-0.1_f64).to_bits()));
    assert!(!is_valid_volume(f64::MIN_POSITIVE.to_bits() | (1 << 63)));
}

#[test]
fn loudest_follows_the_order_of_doubles() {
    assert_eq!(loudest(&Vec::new()), None);
    assert_eq!(loudest(&bits(&[-0.0, 0.0])), Some(0.0_f64.to_bits()));
    assert_eq!(loudest(&bits(&[0.0, -0.0])), Some(0.0_f64.to_bits()));
    assert_eq!(loudest(&bits(&[-0.0])), Some((-0.0_f64).to_bits()));
    assert_eq!(loudest(&bits(&[0.3, 1.25, 0.9])), Some(1.25_f64.to_bits()));
    assert_eq!(loudest(&bits(&[1e-300, 0.0])), Some(1e-300_f64.to_bits()));
}

#[test]
fn mute_needs_a_boolean() {
    let mut map = mixer_map(None, None, None);
    map.push(("mute".to_string(), MixerValue::Uint32(1)));
    assert_eq!(parse_mixer_volume_state(&map).mute, None);
    let state = parse_mixer_volume_state(&mixer_map(None, None, Some(false)));
    assert_eq!(state.mute, Some(false));
    assert_eq!(state.volume, None);
}

#[test]
fn applying_a_state_updates_channels_then_volume_then_mute() {
    let updates = mixer_updates(MixerVolumeState {
        channel_volumes: Some(bits(&[0.25, 0.75])),
        volume: Some(0.75_f64.to_bits()),
        mute: Some(true),
    });
    assert_eq!(updates.len(), 3);
    assert!(matches!(&updates[0], MixerUpdate::ChannelVolumes(v) if *v == bits(&[0.25, 0.75])));
    assert!(matches!(updates[1], MixerUpdate::Volume(v) if v == 0.75_f64.to_bits()));
    assert!(matches!(updates[2], MixerUpdate::Mute(true)));

    let updates = mixer_updates(MixerVolumeState { channel_volumes: None, volume: None, mute: Some(false) });
    assert_eq!(updates.len(), 1);
    assert!(matches!(updates[0], MixerUpdate::Mute(false)));
}

#[test]
fn payload_follows_the_changed_property() {
    assert!(matches!(volume_payload(VolumeChange::Mute, 0), VolumePayload::Mute));
    assert!(matches!(volume_payload(VolumeChange::Volume, 2), VolumePayload::ScaledChannelVolumes));
    assert!(matches!(volume_payload(VolumeChange::Volume, 0), VolumePayload::Volume));
    assert!(matches!(volume_payload(VolumeChange::ChannelVolumes, 2), VolumePayload::ChannelVolumes));
    assert!(matches!(volume_payload(VolumeChange::ChannelVolumes, 0), VolumePayload::Nothing));
}
