use aviary::theme::{CustomThemePalette, ThemeColorRole, ThemeMode, ThemePreset};

#[test]
fn presets_are_grouped_and_paired_by_mode() {
    let dark = ThemePreset::for_mode(ThemeMode::Dark);
    let light = ThemePreset::for_mode(ThemeMode::Light);
    assert_eq!(dark.len(), light.len());
    assert!(dark.iter().all(|preset| preset.mode() == ThemeMode::Dark));
    assert!(light.iter().all(|preset| preset.mode() == ThemeMode::Light));

    for (&dark, &light) in dark.iter().zip(light.iter()) {
        assert_eq!(dark.with_mode(ThemeMode::Light), light);
        assert_eq!(light.with_mode(ThemeMode::Dark), dark);
    }
}

#[test]
fn a_color_is_read_back_and_leaves_the_others() {
    let mut palette = CustomThemePalette::default();
    assert_eq!(palette.color(ThemeColorRole::Primary), 0x61afef);
    palette.set_color(ThemeColorRole::Primary, 0x123456);
    assert_eq!(palette.color(ThemeColorRole::Primary), 0x123456);
    assert_eq!(palette.color(ThemeColorRole::Danger), 0xe06c75);
}

#[test]
fn an_edited_palette_has_no_counterpart() {
    assert_eq!(ThemePreset::Manual.with_mode(ThemeMode::Light), ThemePreset::Manual);
    assert_eq!(ThemePreset::Manual.palette(), ThemePreset::OneDark.palette());
    assert_eq!(ThemePreset::default_for_mode(ThemeMode::Light).palette().background, 0xfafafa);
}
