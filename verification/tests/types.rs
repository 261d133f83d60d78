use ccometixline::cli::Cli;
use ccometixline::option_map::{OptionMap, OptionValue};
use ccometixline::types::{
    AnsiColor, ColorConfig, Config, IconConfig, NormalizedUsage, PromptTokensDetails, RawUsage,
    SegmentConfig, SegmentId, StyleConfig, StyleMode, TextStyleConfig,
};
use ccometixline::ui::{FieldSelection, QuitConfirmComponent, SettingsComponent};

fn raw() -> RawUsage {
    RawUsage {
        input_tokens: None,
        prompt_tokens: None,
        output_tokens: None,
        completion_tokens: None,
        total_tokens: None,
        cache_creation_input_tokens: None,
        cache_read_input_tokens: None,
        cache_creation_prompt_tokens: None,
        cache_read_prompt_tokens: None,
        cached_tokens: None,
        prompt_tokens_details: None,
    }
}

fn normalized(input: u32, output: u32, total: u32, creation: u32, read: u32) -> NormalizedUsage {
    NormalizedUsage {
        input_tokens: input,
        output_tokens: output,
        total_tokens: total,
        cache_creation_input_tokens: creation,
        cache_read_input_tokens: read,
        calculation_source: String::new(),
        raw_data_available: Vec::new(),
    }
}

#[test]
fn normalize_prefers_anthropic_fields_and_sums_components() {
    let mut u = raw();
    u.input_tokens = Some(100);
    u.prompt_tokens = Some(999);
    u.completion_tokens = Some(20);
    u.cache_creation_prompt_tokens = Some(3);
    u.cache_read_prompt_tokens = Some(7);
    u.cached_tokens = Some(1000);
    let n = u.normalize();
    assert_eq!(
        (n.input_tokens, n.output_tokens, n.cache_creation_input_tokens, n.cache_read_input_tokens),
        (100, 20, 3, 7)
    );
    assert_eq!(n.total_tokens, 130);
    assert_eq!(n.calculation_source, "total_from_components");
    assert_eq!(n.raw_data_available, vec!["input_tokens", "output_tokens", "cache_creation", "cache_read"]);
}

#[test]
fn normalize_uses_reported_total_and_nested_cache_reads() {
    let mut u = raw();
    u.prompt_tokens = Some(50);
    u.total_tokens = Some(75);
    u.prompt_tokens_details = Some(PromptTokensDetails { cached_tokens: Some(9), audio_tokens: Some(1) });
    let n = u.normalize();
    assert_eq!((n.input_tokens, n.total_tokens, n.cache_read_input_tokens), (50, 75, 9));
    assert_eq!(n.calculation_source, "total_tokens_direct");
    assert_eq!(n.raw_data_available, vec!["input_tokens", "total_tokens", "cache_read"]);
    assert_eq!(n.total_for_cost(), 75);
}

#[test]
fn normalize_of_nothing_is_zero() {
    let n = raw().normalize();
    assert_eq!(n.total_tokens, 0);
    assert_eq!(n.calculation_source, "");
    assert!(n.raw_data_available.is_empty());
    assert_eq!(n.display_tokens(), 0);
    assert_eq!(n.total_for_cost(), 0);
}

#[test]
fn token_views_of_normalized_usage() {
    let n = normalized(10, 5, 0, 2, 3);
    assert_eq!(n.context_tokens(), 20);
    assert_eq!(n.total_for_cost(), 20);
    assert_eq!(n.display_tokens(), 20);
    let n = normalized(0, 0, 42, 0, 0);
    assert_eq!(n.context_tokens(), 0);
    assert_eq!(n.total_for_cost(), 42);
    assert_eq!(n.display_tokens(), 42);
}

fn segment(id: SegmentId, color: Option<AnsiColor>) -> SegmentConfig {
    SegmentConfig {
        id,
        enabled: true,
        icon: IconConfig { plain: "M".to_string(), nerd_font: "\u{e26d}".to_string() },
        colors: ColorConfig { icon: color, text: None, background: None },
        styles: TextStyleConfig { text_bold: true },
        options: OptionMap::new(),
    }
}

fn config(segments: Vec<SegmentConfig>) -> Config {
    Config {
        style: StyleConfig { mode: StyleMode::Powerline, separator: "".to_string() },
        segments,
        theme: "nord".to_string(),
    }
}

#[test]
fn matches_theme_compares_every_field() {
    let preset = config(vec![segment(SegmentId::Model, Some(AnsiColor::Color16 { c16: 14 }))]);
    let same = config(vec![segment(SegmentId::Model, Some(AnsiColor::Color16 { c16: 14 }))]);
    assert!(same.matches_theme(&preset));
    assert!(!same.is_modified_from_theme(&preset));
    assert!(preset.matches_theme(&preset));
    let recolored = config(vec![segment(SegmentId::Model, Some(AnsiColor::Color256 { c256: 14 }))]);
    assert!(!recolored.matches_theme(&preset));
    assert!(recolored.is_modified_from_theme(&preset));
    let mut with_option = config(vec![segment(SegmentId::Model, Some(AnsiColor::Color16 { c16: 14 }))]);
    with_option.segments[0].options.insert("show_effort".to_string(), OptionValue::Bool(false));
    assert!(!with_option.matches_theme(&preset));
    let longer = config(vec![
        segment(SegmentId::Model, Some(AnsiColor::Color16 { c16: 14 })),
        segment(SegmentId::Git, None),
    ]);
    assert!(!longer.matches_theme(&preset));
}

#[test]
fn option_tables_compare_as_maps() {
    let mut a = OptionMap::new();
    a.insert("x".to_string(), OptionValue::Int(1));
    a.insert("y".to_string(), OptionValue::Str("s".to_string()));
    let mut b = OptionMap::new();
    b.insert("y".to_string(), OptionValue::Str("s".to_string()));
    b.insert("x".to_string(), OptionValue::Int(1));
    assert!(a.same_as(&b));
    b.insert("x".to_string(), OptionValue::Int(2));
    assert!(!a.same_as(&b));
    assert_eq!(b.len(), 2);
    assert!(b.remove("x").is_some());
    assert!(b.remove("x").is_none());
    assert!(!b.contains_key("x"));
}

#[test]
fn quit_confirm_opens_and_closes() {
    let mut q = QuitConfirmComponent::new();
    assert!(!q.is_open);
    assert!(q.popup_area(80, 24).is_none());
    q.open();
    assert!(q.is_open);
    let a = q.popup_area(80, 24).unwrap();
    assert_eq!((a.x, a.y, a.width, a.height), (12, 8, 56, 7));
    let a = q.popup_area(30, 5).unwrap();
    assert_eq!((a.x, a.y, a.width, a.height), (2, 0, 26, 7));
    let a = q.popup_area(2, 3).unwrap();
    assert_eq!((a.x, a.y, a.width, a.height), (1, 0, 0, 7));
    q.close();
    assert!(!q.is_open);
}

#[test]
fn settings_texts_and_scrolling() {
    let _panel = SettingsComponent::new();
    assert_eq!(SettingsComponent::segment_title(SegmentId::ContextWindow), "Context Window");
    assert_eq!(SettingsComponent::color_description(&Some(AnsiColor::Color16 { c16: 8 }), "Default"), "Dark Gray");
    assert_eq!(SettingsComponent::color_description(&Some(AnsiColor::Color16 { c16: 20 }), "Default"), "ANSI 20");
    assert_eq!(SettingsComponent::color_description(&Some(AnsiColor::Color256 { c256: 208 }), "Default"), "256:208");
    assert_eq!(
        SettingsComponent::color_description(&Some(AnsiColor::Rgb { r: 1, g: 22, b: 255 }), "Default"),
        "RGB(1,22,255)"
    );
    assert_eq!(SettingsComponent::color_description(&None, "None"), "None");
    let icon = IconConfig { plain: "M".to_string(), nerd_font: "N".to_string() };
    assert_eq!(SettingsComponent::current_icon(StyleMode::Plain, &icon), "M");
    assert_eq!(SettingsComponent::current_icon(StyleMode::Powerline, &icon), "N");
    assert_eq!(SettingsComponent::selected_line(&FieldSelection::Enabled), 1);
    assert_eq!(SettingsComponent::selected_line(&FieldSelection::TextStyle), 6);
    assert_eq!(SettingsComponent::selected_line(&FieldSelection::Option(3)), 11);
    assert_eq!(SettingsComponent::scroll(11, 10, true), 4);
    assert_eq!(SettingsComponent::scroll(11, 10, false), 0);
    assert_eq!(SettingsComponent::scroll(3, 10, true), 0);
    assert_eq!(SettingsComponent::scroll(5, 0, true), 5);
    assert_eq!(SettingsComponent::option_branch(2, 3), "└─");
    assert_eq!(SettingsComponent::option_branch(0, 3), "├─");
    assert_eq!(SettingsComponent::choice_label("time", true), "[time]");
    assert_eq!(SettingsComponent::choice_label("countdown", false), " countdown ");
}

#[test]
fn cli_holds_the_parsed_flags() {
    let cli = Cli {
        config: false,
        theme: Some("nord".to_string()),
        patch: None,
        options: true,
        set: vec!["usage.timeout=3".to_string()],
        unset: Vec::new(),
    };
    assert_eq!(cli.theme.as_deref(), Some("nord"));
    assert!(cli.options && !cli.config);
    assert_eq!(cli.set.len(), 1);
}
