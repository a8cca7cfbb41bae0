use tau_gui::theme::{Appearance, Theme};

#[test]
fn system_appearances_produce_distinct_accessible_hierarchies() {
    let light = Theme::for_appearance(Appearance::Light);
    let dark = Theme::for_appearance(Appearance::Dark);
    assert_ne!(light.canvas, dark.canvas);
    assert_ne!(light.text, dark.text);
    assert_ne!(light.sidebar, light.surface);
    assert_ne!(dark.sidebar, dark.surface);
    assert_eq!(light.accent, 0x007aff);
    assert_eq!(dark.accent, 0x0a84ff);
}

#[test]
fn vibrant_appearances_follow_their_base_and_the_default_is_dark() {
    assert_eq!(Theme::for_appearance(Appearance::VibrantLight), Theme::for_appearance(Appearance::Light));
    assert_eq!(Theme::for_appearance(Appearance::VibrantDark), Theme::dark());
    assert_eq!(Theme::default(), Theme::dark());
}
