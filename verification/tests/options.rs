use ccometixline::option_map::{OptionMap, OptionValue};
use ccometixline::options::{
    current_value, cycle_option, display_value, known_options, option_keys, parse_segment_id,
    parse_value, render_options, segment_name, set_option, split_target, unset_option,
    OptionEdit, ALL_SEGMENTS,
};
use ccometixline::types::{
    ColorConfig, Config, IconConfig, SegmentConfig, SegmentId, StyleConfig, StyleMode,
    TextStyleConfig,
};

fn segment(id: SegmentId, enabled: bool) -> SegmentConfig {
    SegmentConfig {
        id,
        enabled,
        icon: IconConfig { plain: "P".to_string(), nerd_font: "N".to_string() },
        colors: ColorConfig { icon: None, text: None, background: None },
        styles: TextStyleConfig { text_bold: false },
        options: OptionMap::new(),
    }
}

fn config(segments: Vec<SegmentConfig>) -> Config {
    Config {
        style: StyleConfig { mode: StyleMode::Plain, separator: " | ".to_string() },
        segments,
        theme: "default".to_string(),
    }
}

/// The stored value of an `f64` reading, as serde_json keeps it.
fn read_float(text: &str) -> OptionValue {
    let f: f64 = text.parse().expect("float syntax");
    match serde_json::Value::from(f) {
        serde_json::Value::Null => OptionValue::Other("null".to_string()),
        other => OptionValue::Float(other.to_string()),
    }
}

fn shown(v: &OptionValue) -> String {
    display_value(v)
}

#[test]
fn known_options_list_each_segment() {
    let usage: Vec<&str> = known_options(SegmentId::Usage).iter().map(|o| o.key).collect();
    assert_eq!(
        usage,
        vec!["reset_format", "show_weekly", "cache_duration", "timeout", "api_base_url"]
    );
    let reset = &known_options(SegmentId::Usage)[0];
    assert_eq!(reset.default, "time");
    assert_eq!(reset.choices, &["time", "countdown"]);
    assert!(!reset.is_bool());
    assert!(known_options(SegmentId::Model)[0].is_bool());
    assert_eq!(known_options(SegmentId::Git)[0].key, "show_sha");
    assert_eq!(known_options(SegmentId::Git)[0].default, "false");
    assert_eq!(known_options(SegmentId::Credits)[0].key, "show_percent");
    assert!(known_options(SegmentId::Directory).is_empty());
}

#[test]
fn option_keys_list_known_then_sorted_custom() {
    let mut s = segment(SegmentId::Usage, true);
    s.options.insert("zeta".to_string(), OptionValue::Int(1));
    s.options.insert("timeout".to_string(), OptionValue::Int(5));
    s.options.insert("alpha".to_string(), OptionValue::Bool(true));
    assert_eq!(
        option_keys(&s),
        vec![
            "reset_format",
            "show_weekly",
            "cache_duration",
            "timeout",
            "api_base_url",
            "alpha",
            "zeta"
        ]
    );
    let empty = segment(SegmentId::Session, true);
    assert!(option_keys(&empty).is_empty());
}

#[test]
fn current_value_reports_stored_or_default() {
    let mut s = segment(SegmentId::Usage, true);
    assert_eq!(current_value(&s, "reset_format"), ("time".to_string(), true));
    assert_eq!(current_value(&s, "unknown"), (String::new(), true));
    s.options.insert("timeout".to_string(), OptionValue::Int(-3));
    assert_eq!(current_value(&s, "timeout"), ("-3".to_string(), false));
    s.options.insert("api_base_url".to_string(), OptionValue::Str("http://proxy".to_string()));
    assert_eq!(current_value(&s, "api_base_url"), ("http://proxy".to_string(), false));
}

#[test]
fn cycle_option_toggles_a_boolean_twice_back() {
    let mut s = segment(SegmentId::Model, true);
    match cycle_option(&mut s, "show_effort", 1) {
        OptionEdit::Cycled(v) => assert_eq!(v, "false"),
        OptionEdit::Prompt(_) => panic!("boolean should toggle"),
    }
    assert_eq!(current_value(&s, "show_effort"), ("false".to_string(), false));
    assert!(s.options.get("show_effort").unwrap().same_as(&OptionValue::Bool(false)));
    match cycle_option(&mut s, "show_effort", 1) {
        OptionEdit::Cycled(v) => assert_eq!(v, "true"),
        OptionEdit::Prompt(_) => panic!("boolean should toggle"),
    }
    assert_eq!(current_value(&s, "show_effort"), ("true".to_string(), false));
}

#[test]
fn cycle_option_steps_choices_and_back() {
    let mut s = segment(SegmentId::Usage, true);
    match cycle_option(&mut s, "reset_format", 1) {
        OptionEdit::Cycled(v) => assert_eq!(v, "countdown"),
        OptionEdit::Prompt(_) => panic!("enumeration should cycle"),
    }
    assert!(s.options.get("reset_format").unwrap().same_as(&OptionValue::Str("countdown".to_string())));
    match cycle_option(&mut s, "reset_format", -1) {
        OptionEdit::Cycled(v) => assert_eq!(v, "time"),
        OptionEdit::Prompt(_) => panic!("enumeration should cycle"),
    }
    // wrapping both ways
    match cycle_option(&mut s, "reset_format", -1) {
        OptionEdit::Cycled(v) => assert_eq!(v, "countdown"),
        OptionEdit::Prompt(_) => panic!("enumeration should cycle"),
    }
    match cycle_option(&mut s, "reset_format", 3) {
        OptionEdit::Cycled(v) => assert_eq!(v, "time"),
        OptionEdit::Prompt(_) => panic!("enumeration should cycle"),
    }
    // an unknown current value counts as the first choice
    s.options.insert("reset_format".to_string(), OptionValue::Str("weird".to_string()));
    match cycle_option(&mut s, "reset_format", 1) {
        OptionEdit::Cycled(v) => assert_eq!(v, "countdown"),
        OptionEdit::Prompt(_) => panic!("enumeration should cycle"),
    }
}

#[test]
fn cycle_option_prompts_for_free_form_values() {
    let mut s = segment(SegmentId::Usage, true);
    match cycle_option(&mut s, "timeout", 1) {
        OptionEdit::Prompt(v) => assert_eq!(v, "2"),
        OptionEdit::Cycled(_) => panic!("numbers are typed in"),
    }
    assert!(s.options.get("timeout").is_none());
    // an unknown key holding a boolean still toggles
    s.options.insert("custom".to_string(), OptionValue::Bool(true));
    match cycle_option(&mut s, "custom", 1) {
        OptionEdit::Cycled(v) => assert_eq!(v, "false"),
        OptionEdit::Prompt(_) => panic!("booleans toggle"),
    }
}

#[test]
fn parse_value_types_booleans_numbers_and_text() {
    assert!(parse_value(" true ", &read_float).same_as(&OptionValue::Bool(true)));
    assert!(parse_value("false", &read_float).same_as(&OptionValue::Bool(false)));
    assert!(parse_value(" 42 ", &read_float).same_as(&OptionValue::Int(42)));
    assert!(parse_value("+7", &read_float).same_as(&OptionValue::Int(7)));
    assert!(parse_value("-9223372036854775808", &read_float).same_as(&OptionValue::Int(i64::MIN)));
    assert!(parse_value("1.5", &read_float).same_as(&OptionValue::Float("1.5".to_string())));
    assert!(parse_value("2.", &read_float).same_as(&OptionValue::Float("2.0".to_string())));
    assert!(parse_value("1e3", &read_float).same_as(&OptionValue::Float("1000.0".to_string())));
    assert!(parse_value("inf", &read_float).same_as(&OptionValue::Other("null".to_string())));
    assert!(parse_value("countdown", &read_float).same_as(&OptionValue::Str("countdown".to_string())));
    assert!(parse_value("  ", &read_float).same_as(&OptionValue::Str(String::new())));
    assert!(parse_value("True", &read_float).same_as(&OptionValue::Str("True".to_string())));
    assert!(parse_value("1.2.3", &read_float).same_as(&OptionValue::Str("1.2.3".to_string())));
    // beyond i64: an f64
    assert!(matches!(parse_value("9223372036854775808", &read_float), OptionValue::Float(_)));
}

#[test]
fn display_value_reads_back_through_parse_value() {
    for v in [OptionValue::Bool(true), OptionValue::Bool(false), OptionValue::Int(0), OptionValue::Int(-42), OptionValue::Int(i64::MAX)] {
        let text = shown(&v);
        assert!(parse_value(&text, &read_float).same_as(&v), "{}", text);
    }
    assert_eq!(shown(&OptionValue::Int(-42)), "-42");
    assert_eq!(shown(&OptionValue::Str("a b".to_string())), "a b");
    assert_eq!(shown(&OptionValue::Other("[1,2]".to_string())), "[1,2]");
}

#[test]
fn segment_names_read_back() {
    for id in ALL_SEGMENTS {
        assert_eq!(parse_segment_id(&segment_name(id)), Some(id));
    }
    assert_eq!(segment_name(SegmentId::ContextWindow), "context_window");
    assert_eq!(parse_segment_id(" Context_Window "), Some(SegmentId::ContextWindow));
    assert_eq!(parse_segment_id("MODEL"), Some(SegmentId::Model));
    assert_eq!(parse_segment_id("output style"), None);
    assert_eq!(parse_segment_id(""), None);
}

#[test]
fn split_target_reports_each_error() {
    let (id, key) = split_target("usage. reset_format ").unwrap();
    assert_eq!(id, SegmentId::Usage);
    assert_eq!(key, "reset_format");
    assert_eq!(split_target("usage").unwrap_err(), "expected SEGMENT.KEY, got \"usage\"");
    assert_eq!(
        split_target("bogus.key").unwrap_err(),
        "unknown segment \"bogus\" (expected one of: model, directory, git, context_window, usage, credits, cost, session, output_style, update)"
    );
    assert_eq!(split_target("git. ").unwrap_err(), "missing option key in \"git. \"");
    // only the first '.' splits
    let (id, key) = split_target("git.a.b").unwrap();
    assert_eq!(id, SegmentId::Git);
    assert_eq!(key, "a.b");
}

#[test]
fn set_option_stores_typed_values_and_warns_on_unknown_keys() {
    let mut c = config(vec![segment(SegmentId::Model, true), segment(SegmentId::Usage, false)]);
    assert_eq!(
        set_option(&mut c, "usage.reset_format=countdown", &read_float).unwrap(),
        "usage.reset_format = countdown"
    );
    assert_eq!(current_value(&c.segments[1], "reset_format"), ("countdown".to_string(), false));
    assert_eq!(
        set_option(&mut c, "model.show_effort= false", &read_float).unwrap(),
        "model.show_effort = false"
    );
    assert!(c.segments[0].options.get("show_effort").unwrap().same_as(&OptionValue::Bool(false)));
    assert_eq!(
        set_option(&mut c, "usage.colour=1.50", &read_float).unwrap(),
        "usage.colour = 1.5 (warning: not a known option for this segment)"
    );
    assert_eq!(
        set_option(&mut c, "usage.timeout=a=b", &read_float).unwrap(),
        "usage.timeout = a=b"
    );
}

#[test]
fn set_option_reports_each_error() {
    let mut c = config(vec![segment(SegmentId::Model, true)]);
    assert_eq!(
        set_option(&mut c, "usage.timeout", &read_float).unwrap_err(),
        "expected SEGMENT.KEY=VALUE, got \"usage.timeout\""
    );
    assert_eq!(
        set_option(&mut c, "timeout=3", &read_float).unwrap_err(),
        "expected SEGMENT.KEY, got \"timeout\""
    );
    assert_eq!(
        set_option(&mut c, "usage.timeout=3", &read_float).unwrap_err(),
        "segment \"usage\" is not in the config"
    );
    assert_eq!(c.segments[0].options.len(), 0);
}

#[test]
fn unset_option_falls_back_to_default() {
    let mut c = config(vec![segment(SegmentId::Usage, true)]);
    set_option(&mut c, "usage.show_weekly=false", &read_float).unwrap();
    assert_eq!(current_value(&c.segments[0], "show_weekly"), ("false".to_string(), false));
    assert_eq!(unset_option(&mut c, "usage.show_weekly").unwrap(), "usage.show_weekly reset to default");
    assert_eq!(current_value(&c.segments[0], "show_weekly"), ("true".to_string(), true));
    assert_eq!(unset_option(&mut c, "usage.show_weekly").unwrap(), "usage.show_weekly was not set");
    assert_eq!(
        unset_option(&mut c, "git.show_sha").unwrap_err(),
        "segment \"git\" is not in the config"
    );
}

/// The listing as `format!` with `{:<16}` / `{:<40}` lays it out.
fn reference_listing(c: &Config) -> String {
    let mut out = String::new();
    for id in ALL_SEGMENTS {
        let specs = known_options(id);
        let seg = c.segments.iter().find(|s| s.id == id);
        let mut extra: Vec<(String, String)> = Vec::new();
        if let Some(s) = seg {
            for i in 0..s.options.len() {
                let (k, v) = s.options.entry(i);
                if !specs.iter().any(|o| o.key == k.as_str()) {
                    extra.push((k.clone(), shown(v)));
                }
            }
        }
        if specs.is_empty() && extra.is_empty() {
            continue;
        }
        let state = match seg {
            Some(s) if s.enabled => "enabled",
            Some(_) => "disabled",
            None => "not in config",
        };
        out.push_str(&format!("[{}] ({})\n", segment_name(id), state));
        for spec in specs {
            let current = seg.and_then(|s| s.options.get(spec.key)).map(shown);
            let value = match &current {
                Some(v) => format!("{} (default: {})", v, spec.default),
                None => format!("{} (default)", spec.default),
            };
            out.push_str(&format!("  {:<16} {:<40} {}\n", spec.key, value, spec.description));
        }
        for (key, value) in extra {
            out.push_str(&format!("  {:<16} {:<40} (custom)\n", key, value));
        }
    }
    out.push_str("\nChange with: ccline --set SEGMENT.KEY=VALUE   (e.g. --set usage.reset_format=countdown)\n");
    out.push_str("Reset with:  ccline --unset SEGMENT.KEY\n");
    out
}

#[test]
fn render_options_lists_current_and_default_values() {
    let mut c = config(vec![segment(SegmentId::Model, false), segment(SegmentId::Session, true)]);
    set_option(&mut c, "model.show_effort=false", &read_float).unwrap();
    set_option(&mut c, "session.a_rather_long_custom_key=x", &read_float).unwrap();
    let listing = render_options(&c);
    assert_eq!(listing, reference_listing(&c));
    assert!(listing.starts_with("[model] (disabled)\n  show_effort      false (default: true)"));
    assert!(listing.contains("[session] (enabled)\n  a_rather_long_custom_key x"));
    assert!(listing.contains("[git] (not in config)\n"));
    assert!(!listing.contains("[directory]"));
}

#[test]
fn unset_after_set_restores_the_config() {
    let mut c = config(vec![segment(SegmentId::Model, true), segment(SegmentId::Usage, true)]);
    c.segments[1].options.insert("timeout".to_string(), OptionValue::Int(5));
    let before = render_options(&c);
    assert_eq!(
        set_option(&mut c, "usage.reset_format=countdown", &read_float),
        Ok("usage.reset_format = countdown".to_string())
    );
    assert_eq!(
        unset_option(&mut c, "usage.reset_format"),
        Ok("usage.reset_format reset to default".to_string())
    );
    assert_eq!(render_options(&c), before);
    assert_eq!(c.segments[1].options.len(), 1);
    assert!(c.segments[1].options.get("reset_format").is_none());
    assert_eq!(shown(c.segments[1].options.get("timeout").unwrap()), "5");
    assert_eq!(c.segments[0].options.len(), 0);
    assert_eq!(
        unset_option(&mut c, "usage.reset_format"),
        Ok("usage.reset_format was not set".to_string())
    );
    assert_eq!(render_options(&c), before);
}
