use rascii::color::RasciiColor;
use rascii::luminance::lightness;

/// The lightness as the formula gives it in floating point.
fn reference(r: u8, g: u8, b: u8) -> u8 {
    let rlin = (r as f64).powf(2.2);
    let glin = (g as f64).powf(2.2);
    let blin = (b as f64).powf(2.2);
    let y = 0.2126 * rlin + 0.7152 * glin + 0.0722 * blin;
    let l = 116.0 * y.powf(1.0 / 3.0) - 16.0;
    if l < 0.0 {
        0
    } else if l > 255.0 {
        255
    } else {
        l as u8
    }
}

#[test]
fn black_has_no_lightness() {
    assert_eq!(lightness(0, 0, 0), 0);
}

#[test]
fn white_has_full_lightness() {
    assert_eq!(lightness(255, 255, 255), 255);
}

#[test]
fn pure_channels_are_saturated() {
    assert_eq!(lightness(255, 0, 0), 255);
    assert_eq!(lightness(0, 255, 0), 255);
    assert_eq!(lightness(0, 0, 255), 255);
}

#[test]
fn unit_grey_is_exactly_one_hundred() {
    // Y = 0.2126 + 0.7152 + 0.0722 = 1, so L = 116 - 16.
    assert_eq!(lightness(1, 1, 1), 100);
}

#[test]
fn dark_colours_have_their_exact_lightness() {
    assert_eq!(lightness(1, 0, 0), 53);
    assert_eq!(lightness(0, 1, 0), 87);
    assert_eq!(lightness(0, 0, 1), 32);
    assert_eq!(lightness(2, 0, 0), 99);
    assert_eq!(lightness(0, 0, 2), 64);
    assert_eq!(lightness(6, 0, 0), 241);
    assert_eq!(lightness(0, 3, 0), 216);
    assert_eq!(lightness(0, 0, 10), 245);
    assert_eq!(lightness(3, 2, 5), 217);
}

#[test]
fn first_bright_value_of_each_channel_saturates() {
    assert_eq!(lightness(7, 0, 0), 255);
    assert_eq!(lightness(0, 4, 0), 255);
    assert_eq!(lightness(0, 0, 11), 255);
}

#[test]
fn dark_colours_agree_with_the_formula() {
    for r in 0..=12u8 {
        for g in 0..=12u8 {
            for b in 0..=16u8 {
                assert_eq!(lightness(r, g, b), reference(r, g, b), "({}, {}, {})", r, g, b);
            }
        }
    }
}

#[test]
fn sampled_colours_agree_with_the_formula() {
    let mut r = 0u32;
    while r < 256 {
        let mut g = 0u32;
        while g < 256 {
            let mut b = 0u32;
            while b < 256 {
                let (r8, g8, b8) = (r as u8, g as u8, b as u8);
                assert_eq!(lightness(r8, g8, b8), reference(r8, g8, b8));
                b += 5;
            }
            g += 3;
        }
        r += 7;
    }
}

#[test]
fn lightness_never_falls_when_a_channel_rises() {
    for r in 0..8u8 {
        for g in 0..5u8 {
            for b in 0..12u8 {
                let here = lightness(r, g, b);
                assert!(here <= lightness(r + 1, g, b));
                assert!(here <= lightness(r, g + 1, b));
                assert!(here <= lightness(r, g, b + 1));
            }
        }
    }
}

#[test]
fn triple_gives_its_computed_lightness() {
    assert_eq!(RasciiColor::RGB(1, 1, 1).to_grayscale(), 100);
    assert_eq!(RasciiColor::RGB(255, 0, 0).to_grayscale(), lightness(255, 0, 0));
    assert_eq!(RasciiColor::RGB(0, 0, 0).to_grayscale(), 0);
}

#[test]
fn lightness_is_carried_unchanged() {
    for l in 0..=255u8 {
        assert_eq!(RasciiColor::Grayscale(l).to_grayscale(), l);
    }
}
