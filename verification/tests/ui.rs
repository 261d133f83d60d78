use ccometixline::option_map::{OptionMap, OptionValue};
use ccometixline::types::{AnsiColor, ColorConfig, IconConfig, SegmentConfig, SegmentId, TextStyleConfig};
use ccometixline::ui::{OptionShown, SettingsComponent, TermColor};

fn segment(id: SegmentId) -> SegmentConfig {
    SegmentConfig {
        id,
        enabled: true,
        icon: IconConfig { plain: "P".to_string(), nerd_font: "N".to_string() },
        colors: ColorConfig { icon: None, text: None, background: None },
        styles: TextStyleConfig { text_bold: false },
        options: OptionMap::new(),
    }
}

#[test]
fn term_color_maps_basic_palette_and_extended_colors() {
    assert_eq!(SettingsComponent::term_color(&Some(AnsiColor::Color16 { c16: 0 })), TermColor::Black);
    assert_eq!(SettingsComponent::term_color(&Some(AnsiColor::Color16 { c16: 7 })), TermColor::White);
    assert_eq!(SettingsComponent::term_color(&Some(AnsiColor::Color16 { c16: 8 })), TermColor::DarkGray);
    assert_eq!(SettingsComponent::term_color(&Some(AnsiColor::Color16 { c16: 15 })), TermColor::Gray);
    assert_eq!(SettingsComponent::term_color(&Some(AnsiColor::Color16 { c16: 16 })), TermColor::White);
    assert_eq!(
        SettingsComponent::term_color(&Some(AnsiColor::Color256 { c256: 208 })),
        TermColor::Indexed(208)
    );
    assert_eq!(
        SettingsComponent::term_color(&Some(AnsiColor::Rgb { r: 1, g: 2, b: 3 })),
        TermColor::Rgb(1, 2, 3)
    );
    assert_eq!(SettingsComponent::term_color(&None), TermColor::White);
}

#[test]
fn checkbox_ticks_when_checked() {
    assert_eq!(SettingsComponent::checkbox(true), "[✓]");
    assert_eq!(SettingsComponent::checkbox(false), "[ ]");
}

#[test]
fn option_row_shows_enumeration_choices() {
    let mut s = segment(SegmentId::Usage);
    s.options.insert("reset_format".to_string(), OptionValue::Str("countdown".to_string()));
    let row = SettingsComponent::option_row(&s, 0, 5, "reset_format");
    assert_eq!(row.label, "│  ├─ reset_format: ");
    assert!(!row.is_default);
    assert!(row.description.is_some());
    match row.shown {
        OptionShown::Choices(v) => {
            assert_eq!(v, vec![(" time ".to_string(), false), ("[countdown]".to_string(), true)]);
        }
        _ => panic!("expected choices"),
    }
}

#[test]
fn option_row_shows_default_boolean_as_checkbox() {
    let s = segment(SegmentId::Usage);
    let row = SettingsComponent::option_row(&s, 1, 5, "show_weekly");
    assert_eq!(row.label, "│  ├─ show_weekly: ");
    assert!(row.is_default);
    assert_eq!(row.description, Some("  Show the weekly usage block".to_string()));
    assert_eq!(row.default_note, " (default)");
    assert!(matches!(row.shown, OptionShown::Checkbox(true)));
}

#[test]
fn option_row_shows_custom_text_on_last_row() {
    let mut s = segment(SegmentId::Directory);
    s.options.insert("label".to_string(), OptionValue::Str("x".to_string()));
    let row = SettingsComponent::option_row(&s, 0, 1, "label");
    assert_eq!(row.label, "│  └─ label: ");
    assert!(!row.is_default);
    assert_eq!(row.default_note, "");
    assert!(row.description.is_none());
    match row.shown {
        OptionShown::Text(t) => assert_eq!(t, "x"),
        _ => panic!("expected text"),
    }
    // A custom key holding `true` is text too: only known booleans get a checkbox.
    s.options.insert("flag".to_string(), OptionValue::Bool(true));
    let row = SettingsComponent::option_row(&s, 0, 2, "flag");
    match row.shown {
        OptionShown::Text(t) => assert_eq!(t, "true"),
        _ => panic!("expected text"),
    }
}

#[test]
fn field_texts_of_a_segment() {
    let mut s = segment(SegmentId::ContextWindow);
    s.colors.icon = Some(AnsiColor::Color16 { c16: 1 });
    s.styles.text_bold = true;
    let t = SettingsComponent::field_texts(&s);
    assert_eq!(t.header, "Context Window Segment");
    assert_eq!(t.enabled, "├─ Enabled: ✓");
    assert_eq!(t.icon_label, "├─ Icon: ");
    assert_eq!(t.icon_color, "├─ Icon Color: Red ");
    assert_eq!(t.text_color, "├─ Text Color: Default ");
    assert_eq!(t.background_color, "├─ Background Color: None ");
    assert_eq!(t.swatch, "██");
    assert_eq!(t.background_swatch, "--");
    assert_eq!(t.text_style, "├─ Text Style: Bold [✓]");
    assert_eq!(t.options_header, "├─ Options:");
    assert_eq!(t.no_options, "│  └─ (none)");
    s.enabled = false;
    s.colors.background = Some(AnsiColor::Color256 { c256: 17 });
    let t = SettingsComponent::field_texts(&s);
    assert_eq!(t.enabled, "├─ Enabled: ✗");
    assert_eq!(t.background_color, "├─ Background Color: 256:17 ");
    assert_eq!(t.background_swatch, "██");
}

#[test]
fn marker_points_at_the_selected_field() {
    assert_eq!(SettingsComponent::marker(true), "▶ ");
    assert_eq!(SettingsComponent::marker(false), "  ");
}
