use vga_text::color::{Color, ColorCode};

#[test]
fn palette_codes_are_zero_through_fifteen() {
    let colors = [
        Color::Black,
        Color::Blue,
        Color::Green,
        Color::Cyan,
        Color::Red,
        Color::Magenta,
        Color::Brown,
        Color::LightGray,
        Color::DarkGray,
        Color::LightBlue,
        Color::LightGreen,
        Color::LightCyan,
        Color::LightRed,
        Color::Pink,
        Color::Yellow,
        Color::White,
    ];
    for (i, c) in colors.iter().enumerate() {
        assert_eq!(c.code() as usize, i);
    }
}

#[test]
fn attribute_packs_background_high_foreground_low() {
    assert_eq!(ColorCode::new(Color::Yellow, Color::Black).0, 0x0E);
    assert_eq!(ColorCode::new(Color::White, Color::Blue).0, 0x1F);
    assert_eq!(ColorCode::new(Color::Black, Color::White).0, 0xF0);
    assert_eq!(ColorCode::new(Color::LightCyan, Color::Red).0, 0x4B);
    let fg = Color::Pink;
    let bg = Color::Green;
    let packed = ColorCode::new(fg, bg).0;
    assert_eq!(packed, (bg.code() << 4) | fg.code());
    assert_eq!(packed & 0x0F, fg.code());
    assert_eq!(packed >> 4, bg.code());
}

#[test]
fn attribute_decode_recovers_every_pair() {
    let colors = [
        Color::Black,
        Color::Blue,
        Color::Green,
        Color::Cyan,
        Color::Red,
        Color::Magenta,
        Color::Brown,
        Color::LightGray,
        Color::DarkGray,
        Color::LightBlue,
        Color::LightGreen,
        Color::LightCyan,
        Color::LightRed,
        Color::Pink,
        Color::Yellow,
        Color::White,
    ];
    for fg in colors.iter() {
        for bg in colors.iter() {
            let packed = ColorCode::new(*fg, *bg).0;
            assert_eq!(packed, (bg.code() << 4) | fg.code());
            assert_eq!(packed & 0x0F, fg.code());
            assert_eq!(packed >> 4, bg.code());
        }
    }
}

#[test]
fn attribute_encoding_is_idempotent() {
    let first = ColorCode::new(Color::LightGreen, Color::DarkGray);
    let second = ColorCode::new(Color::LightGreen, Color::DarkGray);
    assert_eq!(first.0, second.0);
    assert_eq!(first, second);
}
