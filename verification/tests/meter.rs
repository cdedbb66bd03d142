use pwvucontrol::meter::{led_blocks, BlockColor, LedBlock, PeakMeterType};

#[test]
fn led_slots_share_the_width() {
    let blocks = led_blocks(10, 3, 3, 1, 2);
    assert_eq!(
        blocks,
        vec![
            LedBlock { x: 0, width: 4, color: BlockColor::Green },
            LedBlock { x: 4, width: 3, color: BlockColor::Yellow },
            LedBlock { x: 7, width: 3, color: BlockColor::Red },
        ]
    );
    let last = blocks[2];
    assert_eq!(last.x + last.width, 10);
}

#[test]
fn led_only_lit_blocks_are_laid_out() {
    let blocks = led_blocks(100, 20, 4, 12, 18);
    assert_eq!(blocks.len(), 4);
    for (i, b) in blocks.iter().enumerate() {
        assert_eq!(b.x, 5 * i as u32);
        assert_eq!(b.width, 5);
        assert_eq!(b.color, BlockColor::Green);
    }
    assert!(led_blocks(100, 20, 0, 12, 18).is_empty());
}

#[test]
fn led_extra_pixels_go_to_the_first_slots() {
    let blocks = led_blocks(23, 5, 5, 3, 4);
    let widths: Vec<u32> = blocks.iter().map(|b| b.width).collect();
    let xs: Vec<u32> = blocks.iter().map(|b| b.x).collect();
    assert_eq!(widths, vec![5, 5, 5, 4, 4]);
    assert_eq!(xs, vec![0, 5, 10, 15, 19]);
    assert_eq!(blocks[4].x + blocks[4].width, 23);
}

#[test]
fn peak_meter_kinds_differ() {
    assert_ne!(PeakMeterType::Disabled, PeakMeterType::Basic);
    assert_ne!(PeakMeterType::Basic, PeakMeterType::Led);
}
