//! Layout and text decisions of the TUI components.
use vstd::prelude::*;

use crate::options::{
    current_text, current_value, find_spec, known_options, known_spec, spec_is_bool, spec_lookup,
};
use crate::text::{push_nat, push_str, to_string};
use crate::types::{AnsiColor, IconConfig, SegmentConfig, SegmentId, StyleMode};

verus! {

/// Modal shown when quitting with unsaved changes.
pub struct QuitConfirmComponent {
    pub is_open: bool,
}

/// Where the modal is drawn.
pub struct PopupArea {
    pub x: u16,
    pub y: u16,
    pub width: u16,
    pub height: u16,
}

impl QuitConfirmComponent {
    pub fn new() -> (r: Self)
        ensures
            !r.is_open,
    {
        QuitConfirmComponent { is_open: false }
    }

    pub fn open(&mut self)
        ensures
            final(self).is_open,
    {
        self.is_open = true;
    }

    pub fn close(&mut self)
        ensures
            !final(self).is_open,
    {
        self.is_open = false;
    }

    /// The modal's area inside a `width` x `height` screen: at most 56 columns
    /// (4 fewer than the screen), 7 rows, centred; nothing when closed.
    pub fn popup_area(&self, width: u16, height: u16) -> (r: Option<PopupArea>)
        ensures
            !self.is_open ==> r is None,
            self.is_open ==> (r matches Some(a) && ({
                let w = if width >= 4 { width - 4 } else { 0 };
                let pw = if w < 56 { w } else { 56 };
                &&& a.width == pw
                &&& a.height == 7
                &&& a.x == (width - pw) / 2
                &&& a.y == (if height >= 7 { height - 7 } else { 0 }) / 2
            })),
    {
        if !self.is_open {
            return None;
        }
        let popup_width: u16 = if width.saturating_sub(4) < 56 {
            width.saturating_sub(4)
        } else {
            56
        };
        let popup_height: u16 = 7;
        Some(
            PopupArea {
                x: (width.saturating_sub(popup_width)) / 2,
                y: (height.saturating_sub(popup_height)) / 2,
                width: popup_width,
                height: popup_height,
            },
        )
    }
}

/// Which settings field is selected.
pub enum FieldSelection {
    Enabled,
    Icon,
    IconColor,
    TextColor,
    BackgroundColor,
    TextStyle,
    /// The `i`-th row under Options
    Option(usize),
}

/// Settings panel of the TUI.
pub struct SettingsComponent;

/// Title of a segment in the settings panel.
pub open spec fn segment_title_text(id: SegmentId) -> Seq<char> {
    match id {
        SegmentId::Model => "Model"@,
        SegmentId::Directory => "Directory"@,
        SegmentId::Git => "Git"@,
        SegmentId::ContextWindow => "Context Window"@,
        SegmentId::Usage => "Usage"@,
        SegmentId::Credits => "Credits"@,
        SegmentId::Cost => "Cost"@,
        SegmentId::Session => "Session"@,
        SegmentId::OutputStyle => "Output Style"@,
        SegmentId::Update => "Update"@,
    }
}

/// Name of one of the 16 basic colors.
pub open spec fn basic_color_name(c: u8) -> Seq<char> {
    if c == 0 {
        "Black"@
    } else if c == 1 {
        "Red"@
    } else if c == 2 {
        "Green"@
    } else if c == 3 {
        "Yellow"@
    } else if c == 4 {
        "Blue"@
    } else if c == 5 {
        "Magenta"@
    } else if c == 6 {
        "Cyan"@
    } else if c == 7 {
        "White"@
    } else if c == 8 {
        "Dark Gray"@
    } else if c == 9 {
        "Light Red"@
    } else if c == 10 {
        "Light Green"@
    } else if c == 11 {
        "Light Yellow"@
    } else if c == 12 {
        "Light Blue"@
    } else if c == 13 {
        "Light Magenta"@
    } else if c == 14 {
        "Light Cyan"@
    } else if c == 15 {
        "Gray"@
    } else {
        "ANSI "@ + crate::text::nat_text(c as nat)
    }
}

/// How a color is described in the settings panel.
pub open spec fn color_text(color: Option<AnsiColor>, none_label: Seq<char>) -> Seq<char> {
    match color {
        Some(AnsiColor::Color16 { c16 }) => basic_color_name(c16),
        Some(AnsiColor::Color256 { c256 }) => "256:"@ + crate::text::nat_text(c256 as nat),
        Some(AnsiColor::Rgb { r, g, b }) => "RGB("@ + crate::text::nat_text(r as nat) + ","@
            + crate::text::nat_text(g as nat) + ","@ + crate::text::nat_text(b as nat) + ")"@,
        None => none_label,
    }
}

/// A terminal color as the TUI draws it.
#[derive(Clone, Copy, Debug, PartialEq, Eq, Structural)]
pub enum TermColor {
    Black,
    Red,
    Green,
    Yellow,
    Blue,
    Magenta,
    Cyan,
    White,
    DarkGray,
    LightRed,
    LightGreen,
    LightYellow,
    LightBlue,
    LightMagenta,
    LightCyan,
    Gray,
    Indexed(u8),
    Rgb(u8, u8, u8),
}

/// The terminal color of one of the 16 basic colors; white beyond them.
pub open spec fn basic_term_color(c: u8) -> TermColor {
    if c == 0 {
        TermColor::Black
    } else if c == 1 {
        TermColor::Red
    } else if c == 2 {
        TermColor::Green
    } else if c == 3 {
        TermColor::Yellow
    } else if c == 4 {
        TermColor::Blue
    } else if c == 5 {
        TermColor::Magenta
    } else if c == 6 {
        TermColor::Cyan
    } else if c == 8 {
        TermColor::DarkGray
    } else if c == 9 {
        TermColor::LightRed
    } else if c == 10 {
        TermColor::LightGreen
    } else if c == 11 {
        TermColor::LightYellow
    } else if c == 12 {
        TermColor::LightBlue
    } else if c == 13 {
        TermColor::LightMagenta
    } else if c == 14 {
        TermColor::LightCyan
    } else if c == 15 {
        TermColor::Gray
    } else {
        TermColor::White
    }
}

/// The terminal color drawn for a configured color; white when unset.
pub open spec fn term_color_of(color: Option<AnsiColor>) -> TermColor {
    match color {
        Some(AnsiColor::Color16 { c16 }) => basic_term_color(c16),
        Some(AnsiColor::Color256 { c256 }) => TermColor::Indexed(c256),
        Some(AnsiColor::Rgb { r, g, b }) => TermColor::Rgb(r, g, b),
        None => TermColor::White,
    }
}

/// How the value of an option row is shown.
pub enum OptionShown {
    /// An enumeration inline: each choice's label and whether it is the current one
    Choices(Vec<(String, bool)>),
    /// A boolean as a checkbox, ticked when the value is `true`
    Checkbox(bool),
    /// Any other value as its text
    Text(String),
}

/// One row under "Options:" in the settings panel.
pub struct OptionRow {
    /// The tree branch and the key, e.g. "│  ├─ reset_format: "
    pub label: String,
    pub shown: OptionShown,
    /// The value is the default: the table has no entry for the key
    pub is_default: bool,
    /// " (default)" when the value is the default, else empty
    pub default_note: &'static str,
    /// The description of a known option, indented: "  " and the description
    pub description: Option<String>,
}

/// Label of a choice: bracketed when current, padded otherwise.
pub open spec fn choice_label_text(choice: Seq<char>, current: bool) -> Seq<char> {
    if current {
        "["@ + choice + "]"@
    } else {
        " "@ + choice + " "@
    }
}

/// Tree branch of option row `i` of `len`.
pub open spec fn branch_text(i: int, len: int) -> Seq<char> {
    if i + 1 == len {
        "└─"@
    } else {
        "├─"@
    }
}

/// The option row of `key`, the `i`-th of `len` rows of `segment`: an
/// enumeration shows its choices with the current one marked, a boolean a
/// checkbox, anything else the current text.
pub open spec fn option_row_ok(segment: &SegmentConfig, i: int, len: int, key: Seq<char>, row: OptionRow) -> bool {
    let current = current_text(segment, key);
    let spec = spec_lookup(known_spec(segment.id), key);
    &&& row.label@ == "│  "@ + branch_text(i, len) + " "@ + key + ": "@
    &&& row.is_default == !segment.options@.contains_key(key)
    &&& row.default_note@ == (if row.is_default {
        " (default)"@
    } else {
        Seq::<char>::empty()
    })
    &&& match spec {
        Some(o) => row.description matches Some(d) && d@ == "  "@ + o.description,
        None => row.description is None,
    }
    &&& if spec is Some && spec->0.choices.len() > 0 {
        let choices = spec->0.choices;
        row.shown matches OptionShown::Choices(v) && v@.len() == choices.len() && forall|j: int|
            0 <= j < choices.len() ==> #[trigger] v@[j].1 == (choices[j] == current) && v@[j].0@
                == choice_label_text(choices[j], choices[j] == current)
    } else if spec is Some && spec_is_bool(spec->0) {
        row.shown == OptionShown::Checkbox(current == "true"@)
    } else {
        row.shown matches OptionShown::Text(t) && t@ == current
    }
}

/// The texts of the settings panel above the option rows.
pub struct FieldTexts {
    /// e.g. "Usage Segment"
    pub header: String,
    /// e.g. "├─ Enabled: ✓"
    pub enabled: String,
    /// "├─ Icon: ", followed by the icon
    pub icon_label: &'static str,
    /// e.g. "├─ Icon Color: Red ", followed by a swatch
    pub icon_color: String,
    pub text_color: String,
    pub background_color: String,
    /// The swatch drawn in a set color
    pub swatch: &'static str,
    /// The background's swatch: the color swatch when a background is set, "--" otherwise
    pub background_swatch: &'static str,
    /// e.g. "├─ Text Style: Bold [ ]"
    pub text_style: String,
    /// "├─ Options:"
    pub options_header: &'static str,
    /// The row shown when the segment has no options
    pub no_options: &'static str,
}

/// The texts of the settings panel of `segment` above its option rows.
pub open spec fn field_texts_ok(segment: &SegmentConfig, t: FieldTexts) -> bool {
    &&& t.header@ == segment_title_text(segment.id) + " Segment"@
    &&& t.enabled@ == "├─ Enabled: "@ + (if segment.enabled {
        "✓"@
    } else {
        "✗"@
    })
    &&& t.icon_label@ == "├─ Icon: "@
    &&& t.icon_color@ == "├─ Icon Color: "@ + color_text(segment.colors.icon, "Default"@) + " "@
    &&& t.text_color@ == "├─ Text Color: "@ + color_text(segment.colors.text, "Default"@) + " "@
    &&& t.background_color@ == "├─ Background Color: "@ + color_text(
        segment.colors.background,
        "None"@,
    ) + " "@
    &&& t.swatch@ == "██"@
    &&& t.background_swatch@ == (if segment.colors.background is Some {
        "██"@
    } else {
        "--"@
    })
    &&& t.text_style@ == "├─ Text Style: Bold "@ + (if segment.styles.text_bold {
        "[✓]"@
    } else {
        "[ ]"@
    })
    &&& t.options_header@ == "├─ Options:"@
    &&& t.no_options@ == "│  └─ (none)"@
}

/// Screen line of a settings field: 0 is the header, 1 to 6 the fixed fields,
/// 7 the "Options:" header, 8 on the option rows.
pub open spec fn field_line(field: FieldSelection) -> int {
    match field {
        FieldSelection::Enabled => 1,
        FieldSelection::Icon => 2,
        FieldSelection::IconColor => 3,
        FieldSelection::TextColor => 4,
        FieldSelection::BackgroundColor => 5,
        FieldSelection::TextStyle => 6,
        FieldSelection::Option(i) => 8 + (i as u16),
    }
}

impl SettingsComponent {
    pub fn new() -> (r: Self) {
        SettingsComponent
    }

    /// Title of a segment in the settings panel.
    pub fn segment_title(id: SegmentId) -> (r: &'static str)
        ensures
            r@ == segment_title_text(id),
    {
        match id {
            SegmentId::Model => "Model",
            SegmentId::Directory => "Directory",
            SegmentId::Git => "Git",
            SegmentId::ContextWindow => "Context Window",
            SegmentId::Usage => "Usage",
            SegmentId::Credits => "Credits",
            SegmentId::Cost => "Cost",
            SegmentId::Session => "Session",
            SegmentId::OutputStyle => "Output Style",
            SegmentId::Update => "Update",
        }
    }

    /// Description of a color; `none_label` when unset.
    pub fn color_description(color: &Option<AnsiColor>, none_label: &str) -> (r: String)
        ensures
            r@ == color_text(*color, none_label@),
    {
        match color {
            Some(AnsiColor::Color16 { c16 }) => {
                let c = *c16;
                let name = if c == 0 {
                    "Black"
                } else if c == 1 {
                    "Red"
                } else if c == 2 {
                    "Green"
                } else if c == 3 {
                    "Yellow"
                } else if c == 4 {
                    "Blue"
                } else if c == 5 {
                    "Magenta"
                } else if c == 6 {
                    "Cyan"
                } else if c == 7 {
                    "White"
                } else if c == 8 {
                    "Dark Gray"
                } else if c == 9 {
                    "Light Red"
                } else if c == 10 {
                    "Light Green"
                } else if c == 11 {
                    "Light Yellow"
                } else if c == 12 {
                    "Light Blue"
                } else if c == 13 {
                    "Light Magenta"
                } else if c == 14 {
                    "Light Cyan"
                } else if c == 15 {
                    "Gray"
                } else {
                    let mut out = to_string("ANSI ");
                    push_nat(&mut out, c as u64);
                    return out;
                };
                to_string(name)
            },
            Some(AnsiColor::Color256 { c256 }) => {
                let mut out = to_string("256:");
                push_nat(&mut out, *c256 as u64);
                out
            },
            Some(AnsiColor::Rgb { r, g, b }) => {
                let mut out = to_string("RGB(");
                push_nat(&mut out, *r as u64);
                push_str(&mut out, ",");
                push_nat(&mut out, *g as u64);
                push_str(&mut out, ",");
                push_nat(&mut out, *b as u64);
                push_str(&mut out, ")");
                out
            },
            None => to_string(none_label),
        }
    }

    /// The icon shown for a style mode: plain text, or the Nerd Font glyph.
    pub fn current_icon(mode: StyleMode, icon: &IconConfig) -> (r: &String)
        ensures
            r@ == (if mode == StyleMode::Plain {
                icon.plain@
            } else {
                icon.nerd_font@
            }),
    {
        match mode {
            StyleMode::Plain => &icon.plain,
            StyleMode::NerdFont | StyleMode::Powerline => &icon.nerd_font,
        }
    }

    /// Screen line of the selected field.
    pub fn selected_line(field: &FieldSelection) -> (r: u16)
        requires
            field matches FieldSelection::Option(i) ==> (i as u16) <= 65527,
        ensures
            r == field_line(*field),
    {
        match field {
            FieldSelection::Enabled => 1,
            FieldSelection::Icon => 2,
            FieldSelection::IconColor => 3,
            FieldSelection::TextColor => 4,
            FieldSelection::BackgroundColor => 5,
            FieldSelection::TextStyle => 6,
            FieldSelection::Option(i) => 8 + *i as u16,
        }
    }

    /// Scroll offset that keeps the selected line visible in a panel of
    /// `area_height` rows (2 of them borders); no scrolling unless the panel is selected.
    pub fn scroll(selected_line: u16, area_height: u16, settings_selected: bool) -> (r: u16)
        ensures
            ({
                let inner = if area_height >= 2 { area_height - 2 } else { 0 };
                let visible = if inner >= 1 { inner } else { 1 };
                r == (if settings_selected && selected_line >= visible - 1 {
                    selected_line - (visible - 1)
                } else {
                    0
                })
            }),
    {
        let visible: u16 = if area_height.saturating_sub(2) >= 1 {
            area_height.saturating_sub(2)
        } else {
            1
        };
        if settings_selected {
            selected_line.saturating_sub(visible - 1)
        } else {
            0
        }
    }

    /// Tree branch of option row `i` of `len`: the last one closes the tree.
    pub fn option_branch(i: usize, len: usize) -> (r: &'static str)
        ensures
            r@ == (if i + 1 == len {
                "└─"@
            } else {
                "├─"@
            }),
    {
        if i < len && i + 1 == len {
            "└─"
        } else {
            "├─"
        }
    }

    /// A choice of an enumeration row: bracketed when current, padded otherwise.
    pub fn choice_label(choice: &str, current: bool) -> (r: String)
        ensures
            r@ == (if current {
                "["@ + choice@ + "]"@
            } else {
                " "@ + choice@ + " "@
            }),
    {
        let mut out = if current {
            to_string("[")
        } else {
            to_string(" ")
        };
        push_str(&mut out, choice);
        if current {
            push_str(&mut out, "]");
        } else {
            push_str(&mut out, " ");
        }
        out
    }
}


impl SettingsComponent {
    /// The terminal color drawn for a configured color.
    pub fn term_color(color: &Option<AnsiColor>) -> (r: TermColor)
        ensures
            r == term_color_of(*color),
    {
        match color {
            Some(AnsiColor::Color16 { c16 }) => {
                let c = *c16;
                if c == 0 {
                    TermColor::Black
                } else if c == 1 {
                    TermColor::Red
                } else if c == 2 {
                    TermColor::Green
                } else if c == 3 {
                    TermColor::Yellow
                } else if c == 4 {
                    TermColor::Blue
                } else if c == 5 {
                    TermColor::Magenta
                } else if c == 6 {
                    TermColor::Cyan
                } else if c == 8 {
                    TermColor::DarkGray
                } else if c == 9 {
                    TermColor::LightRed
                } else if c == 10 {
                    TermColor::LightGreen
                } else if c == 11 {
                    TermColor::LightYellow
                } else if c == 12 {
                    TermColor::LightBlue
                } else if c == 13 {
                    TermColor::LightMagenta
                } else if c == 14 {
                    TermColor::LightCyan
                } else if c == 15 {
                    TermColor::Gray
                } else {
                    TermColor::White
                }
            },
            Some(AnsiColor::Color256 { c256 }) => TermColor::Indexed(*c256),
            Some(AnsiColor::Rgb { r, g, b }) => TermColor::Rgb(*r, *g, *b),
            None => TermColor::White,
        }
    }

    /// A checkbox: "[✓]" when ticked, "[ ]" otherwise.
    pub fn checkbox(checked: bool) -> (r: &'static str)
        ensures
            r@ == (if checked {
                "[✓]"@
            } else {
                "[ ]"@
            }),
    {
        if checked {
            "[✓]"
        } else {
            "[ ]"
        }
    }

    /// The row of option `key`, the `i`-th of `len` option rows of `segment`.
    pub fn option_row(segment: &SegmentConfig, i: usize, len: usize, key: &str) -> (r: OptionRow)
        ensures
            option_row_ok(segment, i as int, len as int, key@, r),
    {
        let (value, is_default) = current_value(segment, key);
        let spec = find_spec(known_options(segment.id), key);
        let mut label = to_string("│  ");
        push_str(&mut label, Self::option_branch(i, len));
        push_str(&mut label, " ");
        push_str(&mut label, key);
        push_str(&mut label, ": ");
        let description = match spec {
            Some(o) => {
                let mut d = to_string("  ");
                push_str(&mut d, o.description);
                Some(d)
            },
            None => None,
        };
        let default_note = if is_default {
            " (default)"
        } else {
            proof {
                reveal_strlit("");
            }
            ""
        };
        let shown = match spec {
            Some(o) => {
                if o.choices.len() > 0 {
                    let ghost choices = o@.choices;
                    let mut v: Vec<(String, bool)> = Vec::new();
                    let mut j: usize = 0;
                    while j < o.choices.len()
                        invariant
                            j <= o.choices@.len(),
                            choices == o.choices@.map_values(|c: &str| c@),
                            v@.len() == j,
                            forall|k: int|
                                0 <= k < j ==> #[trigger] v@[k].1 == (choices[k] == value@)
                                    && v@[k].0@ == choice_label_text(choices[k], choices[k] == value@),
                        decreases o.choices.len() - j,
                    {
                        let c = o.choices[j];
                        let current = crate::text::str_eq(c, value.as_str());
                        v.push((Self::choice_label(c, current), current));
                        j = j + 1;
                    }
                    OptionShown::Choices(v)
                } else if o.is_bool() {
                    OptionShown::Checkbox(crate::text::str_eq(value.as_str(), "true"))
                } else {
                    OptionShown::Text(value)
                }
            },
            None => OptionShown::Text(value),
        };
        let r = OptionRow { label, shown, is_default, default_note, description };
        assert(r.default_note@ == (if r.is_default {
            " (default)"@
        } else {
            Seq::<char>::empty()
        }));
        r
    }
}


impl SettingsComponent {
    /// The marker in front of a field line: an arrow when the field is selected.
    pub fn marker(selected: bool) -> (r: &'static str)
        ensures
            r@ == (if selected {
                "▶ "@
            } else {
                "  "@
            }),
    {
        if selected {
            "▶ "
        } else {
            "  "
        }
    }

    /// The texts of the settings panel of `segment` above its option rows.
    pub fn field_texts(segment: &SegmentConfig) -> (r: FieldTexts)
        ensures
            field_texts_ok(segment, r),
    {
        let mut header = to_string(Self::segment_title(segment.id));
        push_str(&mut header, " Segment");
        let mut enabled = to_string("├─ Enabled: ");
        push_str(&mut enabled, if segment.enabled { "✓" } else { "✗" });
        let mut icon_color = to_string("├─ Icon Color: ");
        let d = Self::color_description(&segment.colors.icon, "Default");
        push_str(&mut icon_color, d.as_str());
        push_str(&mut icon_color, " ");
        let mut text_color = to_string("├─ Text Color: ");
        let d = Self::color_description(&segment.colors.text, "Default");
        push_str(&mut text_color, d.as_str());
        push_str(&mut text_color, " ");
        let mut background_color = to_string("├─ Background Color: ");
        let d = Self::color_description(&segment.colors.background, "None");
        push_str(&mut background_color, d.as_str());
        push_str(&mut background_color, " ");
        let background_swatch = if segment.colors.background.is_some() {
            "██"
        } else {
            "--"
        };
        let mut text_style = to_string("├─ Text Style: Bold ");
        push_str(&mut text_style, Self::checkbox(segment.styles.text_bold));
        FieldTexts {
            header,
            enabled,
            icon_label: "├─ Icon: ",
            icon_color,
            text_color,
            background_color,
            swatch: "██",
            background_swatch,
            text_style,
            options_header: "├─ Options:",
            no_options: "│  └─ (none)",
        }
    }
}

} // verus!
