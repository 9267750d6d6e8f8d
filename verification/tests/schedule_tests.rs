use atomic_core::schedule::{
    legacy_schedule_to_cron, legacy_schedule_to_cron_in_zone, parse_hh_mm, weekday_to_dow,
    Settings, LEGACY_ENABLED_KEY, LEGACY_FREQUENCY_KEY, LEGACY_TIME_KEY, LEGACY_WEEKDAY_KEY,
};

fn settings(pairs: &[(&str, &str)]) -> Settings {
    let mut s = Settings::new();
    for (k, v) in pairs {
        s.insert(k.to_string(), v.to_string());
    }
    s
}

#[test]
fn daily_07_00_round_trips_to_cron() {
    let settings = settings(&[(LEGACY_FREQUENCY_KEY, "daily"), (LEGACY_TIME_KEY, "07:00")]);
    let (cron, _, enabled) = legacy_schedule_to_cron(&settings);
    assert_eq!(cron, "0 0 7 * * *");
    assert!(enabled);
}

#[test]
fn weekly_monday_09_30_round_trips_to_cron() {
    let settings = settings(&[
        (LEGACY_FREQUENCY_KEY, "weekly"),
        (LEGACY_TIME_KEY, "09:30"),
        (LEGACY_WEEKDAY_KEY, "monday"),
    ]);
    let (cron, _, enabled) = legacy_schedule_to_cron(&settings);
    assert_eq!(cron, "0 30 9 * * 1");
    assert!(enabled);
}

#[test]
fn off_disables_and_preserves_user_time() {
    let settings = settings(&[(LEGACY_FREQUENCY_KEY, "off"), (LEGACY_TIME_KEY, "14:30")]);
    let (cron, _, enabled) = legacy_schedule_to_cron(&settings);
    assert_eq!(cron, "0 30 14 * * *");
    assert!(!enabled);
}

#[test]
fn legacy_enabled_false_yields_disabled_with_default_daily_cron() {
    let settings = settings(&[(LEGACY_ENABLED_KEY, "false")]);
    let (cron, _, enabled) = legacy_schedule_to_cron(&settings);
    assert_eq!(cron, "0 0 9 * * *");
    assert!(!enabled);
}

#[test]
fn parse_hh_mm_rejects_garbage() {
    assert_eq!(parse_hh_mm("07:00"), Some((7, 0)));
    assert_eq!(parse_hh_mm("23:59"), Some((23, 59)));
    assert_eq!(parse_hh_mm("24:00"), None);
    assert_eq!(parse_hh_mm("07:60"), None);
    assert_eq!(parse_hh_mm("07"), None);
    assert_eq!(parse_hh_mm("07:00:00"), None);
    assert_eq!(parse_hh_mm("morning"), None);
}

#[test]
fn weekday_mapping_covers_full_week() {
    assert_eq!(weekday_to_dow("Sunday"), Some(0));
    assert_eq!(weekday_to_dow("monday"), Some(1));
    assert_eq!(weekday_to_dow(" SATURDAY "), Some(6));
    assert_eq!(weekday_to_dow("dimanche"), None);
}

#[test]
fn parse_hh_mm_accepts_plus_sign_like_std() {
    assert_eq!(parse_hh_mm("+7:+5"), Some((7, 5)));
    assert_eq!(parse_hh_mm("-1:00"), None);
    assert_eq!(parse_hh_mm(":00"), None);
}

#[test]
fn weekly_with_unknown_weekday_falls_back_to_monday() {
    let settings = settings(&[(LEGACY_FREQUENCY_KEY, "weekly"), (LEGACY_WEEKDAY_KEY, "someday")]);
    let (cron, _, _) = legacy_schedule_to_cron(&settings);
    assert_eq!(cron, "0 0 9 * * 1");
}

#[test]
fn stored_zone_is_trimmed_and_wins_over_detected() {
    let settings = settings(&[("timezone", "  Europe/Paris ")]);
    let (_, tz, _) = legacy_schedule_to_cron_in_zone(&settings, Some("America/New_York".to_string()));
    assert_eq!(tz, "Europe/Paris");
    let empty = Settings::new();
    let (_, tz, _) = legacy_schedule_to_cron_in_zone(&empty, None);
    assert_eq!(tz, "UTC");
    let (_, tz, _) = legacy_schedule_to_cron_in_zone(&empty, Some("Asia/Tokyo".to_string()));
    assert_eq!(tz, "Asia/Tokyo");
}

#[test]
fn later_setting_replaces_earlier() {
    let s = settings(&[(LEGACY_TIME_KEY, "07:00"), (LEGACY_TIME_KEY, "08:15")]);
    assert_eq!(s.get(LEGACY_TIME_KEY).map(|v| v.as_str()), Some("08:15"));
    let (cron, _, _) = legacy_schedule_to_cron(&s);
    assert_eq!(cron, "0 15 8 * * *");
}

#[test]
fn seeding_is_needed_until_the_featured_report_is_recorded() {
    let mut settings = atomic_core::schedule::Settings::new();
    assert!(atomic_core::schedule::briefing_seed_needed(&settings, false));
    settings.insert(atomic_core::schedule::FEATURED_REPORT_SETTING.to_string(), String::new());
    assert!(atomic_core::schedule::briefing_seed_needed(&settings, true));
    settings.insert(atomic_core::schedule::FEATURED_REPORT_SETTING.to_string(), "r1".to_string());
    assert!(!atomic_core::schedule::briefing_seed_needed(&settings, true));
    assert!(atomic_core::schedule::briefing_seed_needed(&settings, false));
}
