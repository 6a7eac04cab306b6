use disco_lcd::color::Rgb565;

#[test]
fn packs_pure_red() {
    assert_eq!(Rgb565 { r: 31, g: 0, b: 0 }.pack(), 0xF800);
}

#[test]
fn packs_pure_green() {
    assert_eq!(Rgb565 { r: 0, g: 63, b: 0 }.pack(), 0x07E0);
}

#[test]
fn packs_pure_blue() {
    assert_eq!(Rgb565 { r: 0, g: 0, b: 31 }.pack(), 0x001F);
}

#[test]
fn packs_black_and_white() {
    assert_eq!(Rgb565::new(0, 0, 0).pack(), 0x0000);
    assert_eq!(Rgb565::new(31, 63, 31).pack(), 0xFFFF);
}

#[test]
fn packs_each_channel_into_its_field() {
    // 0b10101_110011_01010
    assert_eq!(Rgb565::new(0b10101, 0b110011, 0b01010).pack(), 0b1010_1110_0110_1010);
    assert_eq!(Rgb565::new(1, 0, 0).pack(), 1 << 11);
    assert_eq!(Rgb565::new(0, 1, 0).pack(), 1 << 5);
    assert_eq!(Rgb565::new(0, 0, 1).pack(), 1);
}

#[test]
fn new_keeps_the_low_bits_of_each_channel() {
    let c = Rgb565::new(0xFF, 0xFF, 0xFF);
    assert_eq!(c, Rgb565 { r: 31, g: 63, b: 31 });
    let c = Rgb565::new(32, 64, 33);
    assert_eq!(c, Rgb565 { r: 0, g: 0, b: 1 });
}

#[test]
fn pack_masks_channels_that_are_too_wide() {
    let wide = Rgb565 { r: 0xE1, g: 0xC2, b: 0xE3 };
    assert_eq!(wide.pack(), Rgb565 { r: 1, g: 2, b: 3 }.pack());
    assert_eq!(wide.pack(), (1 << 11) | (2 << 5) | 3);
}

#[test]
fn unpack_splits_the_fields() {
    assert_eq!(Rgb565::unpack(0xF800), Rgb565 { r: 31, g: 0, b: 0 });
    assert_eq!(Rgb565::unpack(0x07E0), Rgb565 { r: 0, g: 63, b: 0 });
    assert_eq!(Rgb565::unpack(0x001F), Rgb565 { r: 0, g: 0, b: 31 });
    assert_eq!(Rgb565::unpack(0xAE6A), Rgb565 { r: 0b10101, g: 0b110011, b: 0b01010 });
}

#[test]
fn every_color_survives_pack_and_unpack() {
    for r in 0..32u8 {
        for g in 0..64u8 {
            for b in 0..32u8 {
                let c = Rgb565 { r, g, b };
                assert_eq!(Rgb565::unpack(c.pack()), c);
            }
        }
    }
}

#[test]
fn every_packed_value_survives_unpack_and_pack() {
    for value in 0..=u16::MAX {
        assert_eq!(Rgb565::unpack(value).pack(), value);
    }
}
