use rascii::ramp::{map_char, GSCALE_10, GSCALE_70};

#[test]
fn short_ramp_has_ten_characters() {
    let text: String = GSCALE_10.iter().collect();
    assert_eq!(text, " .:-=+*#%@");
}

#[test]
fn long_ramp_has_sixty_seven_characters() {
    let text: String = GSCALE_70.iter().collect();
    assert_eq!(GSCALE_70.len(), 67);
    assert_eq!(
        text,
        " .\"`^\",:;Il!i~+_-?][}{1)(|\\/tfjrxnuvczXYUJCLQ0OZmwqpdbkhao*#MW&8%B@"
    );
}

#[test]
fn middle_lightness_maps_to_the_middle_of_the_short_ramp() {
    // floor(127 / 255 * 9) = 4
    assert_eq!(map_char(127, 10), '=');
}

#[test]
fn short_ramp_ends() {
    assert_eq!(map_char(0, 10), ' ');
    assert_eq!(map_char(28, 10), ' ');
    assert_eq!(map_char(29, 10), '.');
    assert_eq!(map_char(254, 10), '%');
    assert_eq!(map_char(255, 10), '@');
}

#[test]
fn long_ramp_ends() {
    assert_eq!(map_char(0, 70), ' ');
    assert_eq!(map_char(3, 70), ' ');
    assert_eq!(map_char(4, 70), '.');
    // floor(254 / 255 * 67) = 66, and 255 is held to the last place
    assert_eq!(map_char(254, 70), '@');
    assert_eq!(map_char(255, 70), '@');
    // floor(127 / 255 * 67) = 33
    assert_eq!(map_char(127, 70), GSCALE_70[33]);
    assert_eq!(map_char(127, 70), 'n');
}

#[test]
fn depth_only_selects_the_ramp() {
    for value in 0..=255u8 {
        for depth in 0..=10u8 {
            assert_eq!(map_char(value, depth), map_char(value, 10));
        }
        for depth in 11..=255u8 {
            assert_eq!(map_char(value, depth), map_char(value, 70));
        }
    }
}

#[test]
fn index_follows_the_formula() {
    for value in 0..=255u8 {
        let short = ((value as f64 / 255.0) * 9.0) as usize;
        assert_eq!(map_char(value, 10), GSCALE_10[short.min(9)]);
        let long = ((value as f64 / 255.0) * 67.0) as usize;
        assert_eq!(map_char(value, 70), GSCALE_70[long.min(66)]);
    }
}

#[test]
fn characters_never_move_back_along_the_ramp() {
    for depth in [10u8, 70u8] {
        let ramp: Vec<char> =
            if depth > 10 { GSCALE_70.to_vec() } else { GSCALE_10.to_vec() };
        let mut last = 0usize;
        for value in 0..=255u8 {
            let glyph = map_char(value, depth);
            let scale = if depth > 10 { 67 } else { 9 };
            let place = (value as usize * scale / 255).min(ramp.len() - 1);
            assert_eq!(ramp[place], glyph);
            assert!(place >= last);
            last = place;
        }
        assert_eq!(last, ramp.len() - 1);
    }
}
