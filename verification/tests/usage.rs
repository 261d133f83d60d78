use chrono::{Datelike, Timelike};
use ccometixline::credits::CreditsSegment;
use ccometixline::model::ModelSegment;
use ccometixline::option_map::{OptionMap, OptionValue};
use ccometixline::time::LocalTime;
use ccometixline::types::{
    ColorConfig, Config, Effort, IconConfig, SegmentConfig, SegmentId, StyleConfig, StyleMode,
    TextStyleConfig,
};
use ccometixline::usage::{
    EnvSetting, FetchFallback, LoadStep, UsageDisplay, UsageOptions, UsageSegment,
};

fn config_with(id: SegmentId, options: Vec<(&str, OptionValue)>) -> Config {
    let mut map = OptionMap::new();
    for (k, v) in options {
        map.insert(k.to_string(), v);
    }
    Config {
        style: StyleConfig { mode: StyleMode::NerdFont, separator: " | ".to_string() },
        segments: vec![SegmentConfig {
            id,
            enabled: true,
            icon: IconConfig { plain: String::new(), nerd_font: String::new() },
            colors: ColorConfig { icon: None, text: None, background: None },
            styles: TextStyleConfig { text_bold: false },
            options: map,
        }],
        theme: "default".to_string(),
    }
}

#[test]
fn circle_icon_fills_with_usage() {
    assert_eq!(UsageSegment::get_circle_icon(0), "\u{f0a9e}");
    assert_eq!(UsageSegment::get_circle_icon(12), "\u{f0a9e}");
    assert_eq!(UsageSegment::get_circle_icon(13), "\u{f0a9f}");
    assert_eq!(UsageSegment::get_circle_icon(50), "\u{f0aa1}");
    assert_eq!(UsageSegment::get_circle_icon(87), "\u{f0aa4}");
    assert_eq!(UsageSegment::get_circle_icon(88), "\u{f0aa5}");
    assert_eq!(UsageSegment::get_circle_icon(255), "\u{f0aa5}");
}

#[test]
fn countdown_text_uses_days_hours_minutes() {
    assert_eq!(UsageSegment::countdown_text(0), "now");
    assert_eq!(UsageSegment::countdown_text(-5), "now");
    assert_eq!(UsageSegment::countdown_text(59), "0m");
    assert_eq!(UsageSegment::countdown_text(35 * 60 + 10), "35m");
    assert_eq!(UsageSegment::countdown_text(4 * 3600 + 52 * 60), "4h 52m");
    assert_eq!(UsageSegment::countdown_text(2 * 86400 + 3 * 3600 + 59), "2d 3h");
}

#[test]
fn format_reset_countdown_handles_missing_and_past_times() {
    assert_eq!(UsageSegment::format_reset_countdown(None), "?");
    assert_eq!(UsageSegment::format_reset_countdown(Some("soon")), "?");
    assert_eq!(UsageSegment::format_reset_countdown(Some("2000-01-01T00:00:00Z")), "now");
    let later = (chrono::Utc::now() + chrono::Duration::days(3) + chrono::Duration::minutes(5)).to_rfc3339();
    let text = UsageSegment::format_reset_countdown(Some(&later));
    assert_eq!(text, "3d 0h");
}

#[test]
fn clock_and_weekday_texts() {
    let t = LocalTime { weekday: 3, hour: 0, minute: 7 };
    assert_eq!(UsageSegment::clock_text(&t), "00:07");
    assert_eq!(UsageSegment::weekday_hour_text(&t), "Thu 00h");
    let t = LocalTime { weekday: 6, hour: 23, minute: 59 };
    assert_eq!(UsageSegment::clock_text(&t), "23:59");
    assert_eq!(UsageSegment::weekday_hour_text(&t), "Sun 23h");
}

#[test]
fn session_and_weekly_resets_follow_local_time() {
    let instant = "2025-09-24T21:40:00+00:00";
    let local = chrono::DateTime::parse_from_rfc3339(instant).unwrap().with_timezone(&chrono::Local);
    assert_eq!(
        UsageSegment::format_session_reset(Some(instant)),
        format!("{:02}:{:02}", local.hour(), local.minute())
    );
    let shown = if local.minute() > 45 { local + chrono::Duration::hours(1) } else { local };
    assert_eq!(
        UsageSegment::format_weekly_reset(Some(instant)),
        format!("{} {:02}h", shown.weekday(), shown.hour())
    );
    assert_eq!(UsageSegment::format_session_reset(Some("nope")), "?");
    assert_eq!(UsageSegment::format_weekly_reset(None), "?");
}

#[test]
fn cache_freshness() {
    let s = UsageSegment::new();
    assert!(UsageSegment::cache_fresh(-10, 300));
    assert!(!UsageSegment::cache_fresh(-300, 300));
    assert!(!UsageSegment::cache_fresh(-1, u64::MAX));
    assert!(!s.is_cache_valid("not a time", 300));
    let now = chrono::Utc::now().to_rfc3339();
    assert!(s.is_cache_valid(&now, 300));
    assert!(!s.is_cache_valid("2000-01-01T00:00:00Z", 300));
}

#[test]
fn usage_options_read_the_usage_segment() {
    let d = UsageOptions::default();
    assert_eq!(d.api_base_url, "https://api.anthropic.com");
    assert_eq!((d.cache_duration, d.timeout), (300, 2));
    let c = config_with(
        SegmentId::Usage,
        vec![
            ("api_base_url", OptionValue::Str("http://proxy".to_string())),
            ("cache_duration", OptionValue::Int(60)),
            ("timeout", OptionValue::Int(-1)),
            ("reset_format", OptionValue::Str("countdown".to_string())),
            ("show_weekly", OptionValue::Bool(false)),
        ],
    );
    let o = UsageOptions::from_config(&c);
    assert_eq!(o.api_base_url, "http://proxy");
    assert_eq!((o.cache_duration, o.timeout), (60, 2));
    let display = UsageDisplay::from_config(&c);
    assert!(display.countdown && !display.show_weekly);
    let other = config_with(SegmentId::Model, vec![]);
    let display = UsageDisplay::from_config(&other);
    assert!(!display.countdown && display.show_weekly);
}

#[test]
fn load_decisions_prefer_fresh_cache_then_api() {
    assert!(matches!(UsageSegment::plan_load(false, true), LoadStep::UseInput));
    assert!(matches!(UsageSegment::plan_load(true, true), LoadStep::UseCache));
    assert!(matches!(UsageSegment::plan_load(true, false), LoadStep::Fetch));
    assert!(matches!(UsageSegment::after_fetch(true, true), FetchFallback::Api));
    assert!(matches!(UsageSegment::after_fetch(false, true), FetchFallback::Cache));
    assert!(matches!(UsageSegment::after_fetch(false, false), FetchFallback::Input));
}

#[test]
fn usage_texts_join_session_and_weekly_blocks() {
    let (p, s) = UsageSegment::usage_texts(24, 15, "03:20", Some("Thu 00h"));
    assert_eq!(p, "24%");
    assert_eq!(s, "· 03:20 \u{2502} 7d 15% · Thu 00h");
    let (_, s) = UsageSegment::usage_texts(24, 15, "03:20", None);
    assert_eq!(s, "· 03:20");
    let display = UsageDisplay { countdown: true, show_weekly: true };
    let (p, s) = UsageSegment::new().render(&display, 5, 100, None, Some("2000-01-01T00:00:00Z"));
    assert_eq!(p, "5%");
    assert_eq!(s, "· ? \u{2502} 7d 100% · now");
}

#[test]
fn credits_texts() {
    let c = CreditsSegment::new();
    assert_eq!(c.percent_text(48), "· 48%");
    assert_eq!(c.usage_options().cache_duration, 300);
    let hidden = CreditsSegment::new().with_show_percent(false);
    assert_eq!(hidden.percent_text(48), "");
    let mut options = UsageOptions::default();
    options.timeout = 9;
    let c = CreditsSegment::new().with_usage_options(options);
    assert_eq!(c.usage_options().timeout, 9);
    assert_eq!(CreditsSegment::credits_text("USD", "23.75", "50"), "$23.75/$50");
    assert_eq!(CreditsSegment::credits_text("EUR", "1", "2"), "€1/€2");
    assert_eq!(CreditsSegment::credits_text("GBP", "1", "2"), "£1/£2");
    assert_eq!(CreditsSegment::credits_text("JPY", "100", "200"), "100/200");
}

#[test]
fn model_name_and_effort() {
    let m = ModelSegment::new();
    assert_eq!(m.format_model_name("model-x", "X", Some("Fable 5"), Some(" 1M")), "Fable 5");
    assert_eq!(m.format_model_name("model-id", "", None, Some(" 1M")), "model-id 1M");
    assert_eq!(m.format_model_name("model-id", "Shown", None, None), "Shown");
    let e = Effort { level: Some("  high ".to_string()) };
    assert_eq!(ModelSegment::effort_level(Some(&e)).as_deref(), Some("high"));
    let blank = Effort { level: Some("   ".to_string()) };
    assert_eq!(ModelSegment::effort_level(Some(&blank)), None);
    assert_eq!(ModelSegment::effort_level(None), None);
    assert_eq!(ModelSegment::effort_text(Some("high"), true), "· high");
    assert_eq!(ModelSegment::effort_text(Some("high"), false), "");
    assert!(ModelSegment::show_effort_enabled(None));
    let off = config_with(SegmentId::Model, vec![("show_effort", OptionValue::Bool(false))]);
    assert!(!ModelSegment::show_effort_enabled(Some(&off)));
    let text = config_with(SegmentId::Model, vec![("show_effort", OptionValue::Str("no".to_string()))]);
    assert!(ModelSegment::show_effort_enabled(Some(&text)));
}

#[test]
fn proxy_prefers_https_setting() {
    let https = EnvSetting::Text("http://secure:1".to_string());
    let http = EnvSetting::Text("http://plain:2".to_string());
    assert_eq!(UsageSegment::proxy_choice(&https, &http), Some("http://secure:1".to_string()));
    assert_eq!(
        UsageSegment::proxy_choice(&EnvSetting::Absent, &http),
        Some("http://plain:2".to_string())
    );
    // A present HTTPS_PROXY that is not a string does not fall back to HTTP_PROXY.
    assert_eq!(UsageSegment::proxy_choice(&EnvSetting::Other, &http), None);
    assert_eq!(UsageSegment::proxy_choice(&EnvSetting::Absent, &EnvSetting::Absent), None);
}

#[test]
fn weekly_reset_rounds_up_past_minute_45() {
    let now = LocalTime { weekday: 2, hour: 23, minute: 50 };
    let later = LocalTime { weekday: 3, hour: 0, minute: 50 };
    assert_eq!(UsageSegment::weekly_text(now, Some(later)), "Thu 00h");
    let now = LocalTime { weekday: 2, hour: 23, minute: 45 };
    assert_eq!(UsageSegment::weekly_text(now, None), "Wed 23h");
    let now = LocalTime { weekday: 2, hour: 23, minute: 46 };
    let later = LocalTime { weekday: 3, hour: 0, minute: 46 };
    let shown = UsageSegment::weekly_reading(now, Some(later));
    assert_eq!((shown.weekday, shown.hour, shown.minute), (3, 0, 46));
    let now = LocalTime { weekday: 2, hour: 23, minute: 46 };
    let shown = UsageSegment::weekly_reading(now, None);
    assert_eq!((shown.weekday, shown.hour), (2, 23));
}

#[test]
fn weekly_reset_of_instants_near_the_hour() {
    for instant in ["2025-09-24T23:50:00+00:00", "2025-09-24T23:45:00+00:00"] {
        let local =
            chrono::DateTime::parse_from_rfc3339(instant).unwrap().with_timezone(&chrono::Local);
        let shown = if local.minute() > 45 { local + chrono::Duration::hours(1) } else { local };
        assert_eq!(
            UsageSegment::format_weekly_reset(Some(instant)),
            format!("{} {:02}h", shown.weekday(), shown.hour())
        );
    }
    assert_eq!(UsageSegment::format_weekly_reset(Some("soon")), "?");
}
