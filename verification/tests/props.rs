use pwvucontrol::props::{FormatProps, PodProperty, PodValue, PROPS_KEY_CHANNEL_VOLUMES, PROPS_KEY_MUTE, PROPS_KEY_VOLUME};

#[test]
fn props_read_the_last_property_of_the_right_type() {
    let ps = vec![
        PodProperty { key: PROPS_KEY_VOLUME, value: PodValue::Float(0.5f32.to_bits()) },
        PodProperty { key: PROPS_KEY_MUTE, value: PodValue::Bool(true) },
        PodProperty { key: PROPS_KEY_VOLUME, value: PodValue::Float(0.25f32.to_bits()) },
        PodProperty { key: PROPS_KEY_VOLUME, value: PodValue::Bool(false) },
        PodProperty { key: 1, value: PodValue::Float(1.0f32.to_bits()) },
        PodProperty { key: PROPS_KEY_CHANNEL_VOLUMES, value: PodValue::Other },
    ];
    let p = FormatProps::from_properties(&ps);
    assert_eq!(p.volume, Some(0.25f32.to_bits()));
    assert_eq!(p.mute, Some(true));
    assert_eq!(p.channel_volumes, None);
}

#[test]
fn props_written_in_order() {
    let p = FormatProps { volume: Some(7), mute: Some(false), channel_volumes: Some(vec![1, 2]) };
    assert_eq!(
        p.to_properties(),
        vec![
            PodProperty { key: PROPS_KEY_CHANNEL_VOLUMES, value: PodValue::FloatArray(vec![1, 2]) },
            PodProperty { key: PROPS_KEY_VOLUME, value: PodValue::Float(7) },
            PodProperty { key: PROPS_KEY_MUTE, value: PodValue::Bool(false) },
        ]
    );
    let none = FormatProps { volume: None, mute: None, channel_volumes: None };
    assert!(none.to_properties().is_empty());
}

#[test]
fn props_round_trip() {
    let p = FormatProps {
        volume: Some(0.8f32.to_bits()),
        mute: None,
        channel_volumes: Some(vec![0.1f32.to_bits(), 0.9f32.to_bits()]),
    };
    assert_eq!(FormatProps::from_properties(&p.to_properties()), p);
}
