use spotlight_dimmer::color::OverlayColor;

#[test]
fn colorref_puts_blue_high_and_red_low() {
    assert_eq!(OverlayColor::new(255, 128, 0, 0).to_colorref(), 0x0000_80ff);
    assert_eq!(OverlayColor::new(0x12, 0x34, 0x56, 255).to_colorref(), 0x0056_3412);
    assert_eq!(OverlayColor::new(255, 255, 255, 255).to_colorref(), 0x00ff_ffff);
}

#[test]
fn default_color_is_half_transparent_black() {
    let c = OverlayColor::default();
    assert_eq!((c.r, c.g, c.b, c.alpha), (0, 0, 0, 127));
}
