//! The model segment: model name and effort level.
use vstd::prelude::*;

use crate::text::{push_str, to_string, trim, trimmed};
use crate::types::{Config, Effort, SegmentId};
use crate::usage::{bool_option, segment_option};

verus! {

/// Shows the model name and, when reported, the effort level.
pub struct ModelSegment;

/// The name shown for a model: the configured display name when the model
/// config recognises the id, else the upstream display name (the id when that
/// is empty) followed by any context-modifier suffix.
pub open spec fn model_name_spec(
    id: Seq<char>,
    display_name: Seq<char>,
    config_name: Option<Seq<char>>,
    display_suffix: Option<Seq<char>>,
) -> Seq<char> {
    match config_name {
        Some(n) => n,
        None => (if display_name.len() == 0 {
            id
        } else {
            display_name
        }) + match display_suffix {
            Some(x) => x,
            None => Seq::empty(),
        },
    }
}

/// The effort level worth showing: the trimmed level, when not empty.
pub open spec fn effort_level_spec(effort: Option<&Effort>) -> Option<Seq<char>> {
    match effort {
        Some(e) => match e.level {
            Some(l) => if trimmed(l@).len() > 0 {
                Some(trimmed(l@))
            } else {
                None
            },
            None => None,
        },
        None => None,
    }
}

impl ModelSegment {
    pub fn new() -> (r: Self) {
        ModelSegment
    }

    /// Whether the effort level should be appended to the model name: the
    /// `show_effort` option of the model segment (default: true, also when no
    /// configuration could be loaded).
    pub fn show_effort_enabled(config: Option<&Config>) -> (r: bool)
        ensures
            r == match config {
                Some(c) => bool_option(segment_option(c, SegmentId::Model, "show_effort"@), true),
                None => true,
            },
    {
        match config {
            Some(c) => {
                match crate::usage::option_in(c, SegmentId::Model, "show_effort") {
                    Some(v) => match v.as_bool() {
                        Some(b) => b,
                        None => true,
                    },
                    None => true,
                }
            },
            None => true,
        }
    }

    /// The model name to show; `config_name` and `display_suffix` are what the
    /// model configuration gives for `id` (a recognised display name, a
    /// context-modifier suffix).
    pub fn format_model_name(
        &self,
        id: &str,
        display_name: &str,
        config_name: Option<&str>,
        display_suffix: Option<&str>,
    ) -> (r: String)
        ensures
            r@ == model_name_spec(
                id@,
                display_name@,
                crate::usage::opt_text(config_name),
                crate::usage::opt_text(display_suffix),
            ),
    {
        match config_name {
            Some(n) => to_string(n),
            None => {
                let mut base = if display_name.unicode_len() == 0 {
                    to_string(id)
                } else {
                    to_string(display_name)
                };
                match display_suffix {
                    Some(x) => push_str(&mut base, x),
                    None => {},
                }
                assert(base@ =~= model_name_spec(
                    id@,
                    display_name@,
                    crate::usage::opt_text(config_name),
                    crate::usage::opt_text(display_suffix),
                ));
                base
            },
        }
    }

    /// The effort level to show, trimmed; `None` when absent or blank.
    pub fn effort_level(effort: Option<&Effort>) -> (r: Option<String>)
        ensures
            match r {
                Some(l) => effort_level_spec(effort) == Some(l@),
                None => effort_level_spec(effort) is None,
            },
    {
        match effort {
            Some(e) => match &e.level {
                Some(l) => {
                    let t = trim(l.as_str());
                    if t.unicode_len() > 0 {
                        Some(to_string(t))
                    } else {
                        None
                    }
                },
                None => None,
            },
            None => None,
        }
    }

    /// Secondary text: "· high" when a level is shown, else nothing.
    pub fn effort_text(level: Option<&str>, show_effort: bool) -> (r: String)
        ensures
            r@ == match level {
                Some(l) => if show_effort {
                    "· "@ + l@
                } else {
                    Seq::empty()
                },
                None => Seq::empty(),
            },
    {
        match level {
            Some(l) => if show_effort {
                let mut out = to_string("· ");
                push_str(&mut out, l);
                out
            } else {
                String::new()
            },
            None => String::new(),
        }
    }
}

} // verus!
