use aviary::model::AccountId;
use aviary::settings::{
    detect_system_language, extract_email, language_of_candidates, migrated_font_size, normalized_sender,
    BodyViewMode, CalendarLayout, GlobalSettings, LanguageChoice, QuickAction, QuickForward, QuickReply, Settings,
};
use aviary::theme::{ThemeColorRole, ThemeMode, ThemePreset};

#[test]
fn default_rendering_settings() {
    assert_eq!(BodyViewMode::default(), BodyViewMode::Blitz);
    assert_eq!(CalendarLayout::default(), CalendarLayout::Calendar);
    assert!(!GlobalSettings::default().force_uniform_font_family);
    assert!(!GlobalSettings::default().force_uniform_font_size);
    assert!(!GlobalSettings::default().reply_all_primary);
    assert!(!GlobalSettings::default().force_light_email_preview);
}

#[test]
fn blocking_matches_the_address_whatever_the_display_name() {
    let mut settings = GlobalSettings::default();
    assert!(settings.block_sender("Contact A <contact@example.com>"));

    assert!(settings.sender_is_blocked("Someone Else <CONTACT@Example.com>"));
    assert!(settings.sender_is_blocked("contact@example.com"));
    assert!(!settings.sender_is_blocked("other@example.com"));
}

#[test]
fn an_addressless_sender_is_never_blocked() {
    let mut settings = GlobalSettings::default();

    assert!(!settings.block_sender("Contact A"));
    assert!(settings.blocked_senders.is_empty());
    assert!(!settings.sender_is_blocked("Contact B"));
}

#[test]
fn blocking_is_idempotent_and_reversible() {
    let mut settings = GlobalSettings::default();
    assert!(settings.block_sender("contact@example.com"));
    assert!(!settings.block_sender("Contact A <contact@example.com>"));
    assert_eq!(settings.blocked_senders.len(), 1);

    assert!(settings.unblock_sender("CONTACT@EXAMPLE.COM"));
    assert!(settings.blocked_senders.is_empty());
    assert!(!settings.unblock_sender("contact@example.com"));
}

#[test]
fn the_block_list_is_kept_in_order() {
    let mut settings = GlobalSettings::default();
    assert!(settings.block_sender("b@example.com"));
    assert!(settings.block_sender("A@example.com"));
    assert_eq!(settings.blocked_senders, vec!["a@example.com".to_string(), "b@example.com".to_string()]);
}

#[test]
fn blocking_and_unblocking_gives_the_list_back() {
    let mut settings = GlobalSettings::default();
    let kept: Vec<String> = ["a@example.com", "a@example.com", "c@example.com"].map(str::to_string).into();
    settings.blocked_senders = kept.clone();
    assert!(settings.block_sender("B <b@example.com>"));
    assert_eq!(settings.blocked_senders[2], "b@example.com");
    assert!(settings.unblock_sender("b@example.com"));
    assert_eq!(settings.blocked_senders, kept);
}

#[test]
fn addresses_are_found_in_headers() {
    assert_eq!(extract_email("Contact A <contact@example.com>"), Some("contact@example.com".to_string()));
    assert_eq!(extract_email("contact@example.com"), Some("contact@example.com".to_string()));
    assert_eq!(extract_email("Contact A"), None);
    assert_eq!(normalized_sender("X <CONTACT@Example.com>"), Some("contact@example.com".to_string()));
}

#[test]
fn manual_custom_palette_switches_modes_and_restores_each_variant() {
    let mut global = GlobalSettings::default();
    global.select_custom_theme_preset(ThemePreset::NordDark);
    global.edit_custom_theme_color(ThemeColorRole::Primary, 0x123456);

    global.select_custom_theme_mode(ThemeMode::Light);

    assert_eq!(global.theme_mode, ThemeMode::Light);
    assert_eq!(global.theme_preset, ThemePreset::NordLight);
    assert_eq!(global.custom_theme_palette, ThemePreset::NordLight.palette());

    global.edit_custom_theme_color(ThemeColorRole::Primary, 0xabcdef);
    global.select_custom_theme_mode(ThemeMode::Dark);

    assert_eq!(global.theme_mode, ThemeMode::Dark);
    assert_eq!(global.theme_preset, ThemePreset::Manual);
    assert_eq!(global.custom_theme_palette.primary, 0x123456);

    global.select_custom_theme_mode(ThemeMode::Light);

    assert_eq!(global.theme_mode, ThemeMode::Light);
    assert_eq!(global.theme_preset, ThemePreset::Manual);
    assert_eq!(global.custom_theme_palette.primary, 0xabcdef);
}

#[test]
fn legacy_manual_custom_palette_gets_a_light_counterpart() {
    let mut loaded = Settings::default();
    loaded.global.custom_theme_enabled = true;
    loaded.global.theme_preset = ThemePreset::Manual;
    loaded.global.custom_theme_palette.set_color(ThemeColorRole::Primary, 0x123456);
    loaded.global.custom_theme_dark_variant = None;
    loaded.global.custom_theme_light_variant = None;

    loaded.global.select_custom_theme_mode(ThemeMode::Light);
    assert_eq!(loaded.global.theme_mode, ThemeMode::Light);
    assert_eq!(loaded.global.custom_theme_palette, ThemePreset::OneLight.palette());

    loaded.global.select_custom_theme_mode(ThemeMode::Dark);
    assert_eq!(loaded.global.custom_theme_palette.primary, 0x123456);
}

#[test]
fn the_builtin_theme_leaves_the_custom_one_alone() {
    let mut global = GlobalSettings::default();
    global.select_custom_theme_preset(ThemePreset::NordDark);
    assert!(global.uses_custom_theme());
    global.select_builtin_theme_mode(ThemeMode::Light);
    assert!(!global.uses_custom_theme());
    assert_eq!(global.theme_mode, ThemeMode::Light);
    global.select_custom_theme_mode(ThemeMode::Dark);
    assert_eq!(global.custom_theme_palette, ThemePreset::NordDark.palette());
}

#[test]
fn one_old_switch_stands_for_two() {
    assert_eq!(migrated_font_size(false, Some(true)), Some(true));
    assert_eq!(migrated_font_size(true, Some(true)), None);
    assert_eq!(migrated_font_size(false, None), None);
}

#[test]
fn the_language_is_the_first_that_is_known() {
    assert_eq!(language_of_candidates(&vec!["fr_FR.UTF-8".to_string()]), LanguageChoice::French);
    assert_eq!(language_of_candidates(&vec!["FR".to_string()]), LanguageChoice::French);
    assert_eq!(language_of_candidates(&vec!["de_DE".to_string()]), LanguageChoice::English);
    assert_eq!(language_of_candidates(&Vec::new()), LanguageChoice::English);
    assert_eq!(LanguageChoice::French.to_lang_id(&Vec::new()), "fr");
    assert_eq!(LanguageChoice::English.to_lang_id(&vec!["fr".to_string()]), "en");
    let system = LanguageChoice::System.to_lang_id(&Vec::new());
    assert!(system == "en" || system == "fr");
    assert_ne!(detect_system_language(&Vec::new()), LanguageChoice::System);
}

#[test]
fn the_delay_of_actions_can_be_switched_off() {
    let mut global = GlobalSettings::default();
    global.action_delay_secs = 7;
    global.action_delay_enabled = true;
    assert_eq!(global.effective_action_delay_secs(), 7);
    global.action_delay_enabled = false;
    assert_eq!(global.effective_action_delay_secs(), 0);
}

#[test]
fn quick_actions_are_sound_only_with_something_to_do() {
    let mut action = QuickAction::default();
    assert!(!action.has_steps());
    action.mark_read = Some(true);
    assert!(action.has_steps());
    action.add_tags = vec!["a".to_string()];
    assert!(action.targets_are_disjoint());
    action.remove_tags = vec!["a".to_string()];
    assert!(!action.targets_are_disjoint());
    action.forward = Some(QuickForward::default());
    assert!(action.sends_at_most_once());
    action.reply = Some(QuickReply::default());
    assert!(!action.sends_at_most_once());
}

#[test]
fn accounts_have_settings_of_their_own() {
    let mut settings = Settings::default();
    let id = AccountId("account-a".to_string());
    settings.account_mut(&id).display_name_override = "Work".to_string();
    assert_eq!(settings.account_or_default(Some(&id)).display_name_override, "Work");
    assert_eq!(settings.account_or_default(None).display_name_override, "");
    let other = AccountId("account-b".to_string());
    assert_eq!(settings.account_or_default(Some(&other)).display_name_override, "");
}

#[test]
fn snoozed_messages_come_back_once() {
    let mut settings = Settings::default();
    let id = AccountId("account-a".to_string());
    settings.snooze_message(&id, "m", 10);
    settings.snooze_message(&id, "m", 20);
    settings.snooze_message(&id, "n", 30);
    assert_eq!(settings.snoozed_until(&id, "m"), Some(20));
    assert!(settings.take_due_snoozes(19).is_empty());
    let due = settings.take_due_snoozes(20);
    assert_eq!(due.len(), 1);
    assert_eq!((due[0].0 .0.as_str(), due[0].1.as_str()), ("account-a", "m"));
    assert!(settings.take_due_snoozes(20).is_empty());
    assert!(settings.unsnooze_message(&id, "n"));
    assert!(!settings.unsnooze_message(&id, "n"));
    assert_eq!(settings.snoozed_until(&id, "n"), None);
}
