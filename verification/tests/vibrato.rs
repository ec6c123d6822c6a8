use modmill::engine::effects::vibrato::period_offset_for_tick;

#[test]
fn vibrato_phase_advances_by_speed() {
    let mut phase = 0u8;
    period_offset_for_tick(0x64, &mut phase);
    assert_eq!(phase, 6);
    period_offset_for_tick(0x64, &mut phase);
    assert_eq!(phase, 12);
}

#[test]
fn vibrato_offset_follows_sine_table() {
    // speed 1, depth 15: phase 1 -> (24 * 15) >> 7 = 2.
    let mut phase = 0u8;
    assert_eq!(period_offset_for_tick(0x1F, &mut phase), 2);
    // phase 16 (peak 255): (255 * 15) >> 7 = 29.
    let mut phase = 15u8;
    assert_eq!(period_offset_for_tick(0x1F, &mut phase), 29);
    assert_eq!(phase, 16);
}

#[test]
fn vibrato_second_half_of_cycle_is_negative() {
    let mut phase = 47u8;
    assert_eq!(period_offset_for_tick(0x1F, &mut phase), -29);
    assert_eq!(phase, 48);
}

#[test]
fn vibrato_phase_wraps_at_64() {
    let mut phase = 62u8;
    period_offset_for_tick(0x40, &mut phase);
    assert_eq!(phase, 2);
    let mut phase = 255u8;
    period_offset_for_tick(0x10, &mut phase);
    assert_eq!(phase, 0);
}

#[test]
fn vibrato_depth_zero_is_silent() {
    let mut phase = 10u8;
    assert_eq!(period_offset_for_tick(0x50, &mut phase), 0);
    assert_eq!(phase, 15);
}
