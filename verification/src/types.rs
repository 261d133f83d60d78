//! Configuration, statusline input and token-usage types.
use vstd::prelude::*;

use crate::option_map::OptionMap;
use crate::text::{push_str, to_string, trim, trimmed};
use crate::time::{epoch_reading, normalize_rfc3339, rfc3339_from_epoch, rfc3339_reading};

verus! {

/// Main configuration: global style, the ordered segment list and the theme name.
pub struct Config {
    pub style: StyleConfig,
    pub segments: Vec<SegmentConfig>,
    pub theme: String,
}

pub struct StyleConfig {
    pub mode: StyleMode,
    pub separator: String,
}

#[derive(Clone, Copy, Debug, PartialEq, Eq, Structural)]
pub enum StyleMode {
    Plain,
    NerdFont,
    Powerline,
}

pub struct SegmentConfig {
    pub id: SegmentId,
    pub enabled: bool,
    pub icon: IconConfig,
    pub colors: ColorConfig,
    pub styles: TextStyleConfig,
    pub options: OptionMap,
}

pub struct IconConfig {
    pub plain: String,
    pub nerd_font: String,
}

pub struct ColorConfig {
    pub icon: Option<AnsiColor>,
    pub text: Option<AnsiColor>,
    pub background: Option<AnsiColor>,
}

pub struct TextStyleConfig {
    pub text_bold: bool,
}

/// A terminal color: one of the 16 basic colors, a 256-palette index or RGB.
#[derive(Clone, Copy, Debug, PartialEq, Eq, Structural)]
pub enum AnsiColor {
    Color16 { c16: u8 },
    Color256 { c256: u8 },
    Rgb { r: u8, g: u8, b: u8 },
}

#[derive(Clone, Copy, Debug, PartialEq, Eq, Structural, Hash)]
pub enum SegmentId {
    Model,
    Directory,
    Git,
    ContextWindow,
    Usage,
    Credits,
    Cost,
    Session,
    OutputStyle,
    Update,
}

/// Legacy per-segment switches.
pub struct SegmentsConfig {
    pub directory: bool,
    pub git: bool,
    pub model: bool,
}

/// Model identity from the statusline input.
pub struct Model {
    pub id: String,
    pub display_name: String,
}

pub struct Workspace {
    pub current_dir: String,
}

pub struct OutputStyle {
    pub name: String,
}

/// Effort level the assistant reports for the current turn
/// (e.g. "low", "medium", "high", "xhigh", "max").
pub struct Effort {
    pub level: Option<String>,
}

/// Two segment configurations agree in every field the theme comparison looks at.
pub open spec fn segment_matches_spec(current: &SegmentConfig, preset: &SegmentConfig) -> bool {
    &&& current.id == preset.id
    &&& current.enabled == preset.enabled
    &&& current.icon.plain@ == preset.icon.plain@
    &&& current.icon.nerd_font@ == preset.icon.nerd_font@
    &&& current.colors.icon == preset.colors.icon
    &&& current.colors.text == preset.colors.text
    &&& current.colors.background == preset.colors.background
    &&& current.styles.text_bold == preset.styles.text_bold
    &&& current.options@ == preset.options@
}

/// A configuration agrees with a theme preset: same style, and the same
/// segments, in the same order, field by field.
pub open spec fn config_matches(config: &Config, preset: &Config) -> bool {
    &&& config.style.mode == preset.style.mode
    &&& config.style.separator@ == preset.style.separator@
    &&& config.segments@.len() == preset.segments@.len()
    &&& forall|i: int|
        0 <= i < config.segments@.len() ==> segment_matches_spec(
            &#[trigger] config.segments@[i],
            &preset.segments@[i],
        )
}

impl Config {
    /// Check whether this configuration matches a theme preset.
    pub fn matches_theme(&self, theme_preset: &Config) -> (r: bool)
        ensures
            r == config_matches(self, theme_preset),
    {
        if self.style.mode != theme_preset.style.mode || !crate::text::str_eq(
            self.style.separator.as_str(),
            theme_preset.style.separator.as_str(),
        ) {
            return false;
        }
        if self.segments.len() != theme_preset.segments.len() {
            return false;
        }
        let mut i: usize = 0;
        while i < self.segments.len()
            invariant
                i <= self.segments.len(),
                self.segments.len() == theme_preset.segments.len(),
                forall|j: int|
                    0 <= j < i ==> segment_matches_spec(
                        &#[trigger] self.segments@[j],
                        &theme_preset.segments@[j],
                    ),
            decreases self.segments.len() - i,
        {
            if !self.segment_matches(&self.segments[i], &theme_preset.segments[i]) {
                return false;
            }
            i = i + 1;
        }
        true
    }

    /// Check whether this configuration has been modified from its theme's preset.
    pub fn is_modified_from_theme(&self, theme_preset: &Config) -> (r: bool)
        ensures
            r == !config_matches(self, theme_preset),
    {
        !self.matches_theme(theme_preset)
    }

    /// Compare two segment configs for equality.
    fn segment_matches(&self, current: &SegmentConfig, preset: &SegmentConfig) -> (r: bool)
        ensures
            r == segment_matches_spec(current, preset),
    {
        current.id == preset.id && current.enabled == preset.enabled && crate::text::str_eq(
            current.icon.plain.as_str(),
            preset.icon.plain.as_str(),
        ) && crate::text::str_eq(current.icon.nerd_font.as_str(), preset.icon.nerd_font.as_str())
            && self.color_matches(&current.colors.icon, &preset.colors.icon) && self.color_matches(
            &current.colors.text,
            &preset.colors.text,
        ) && self.color_matches(&current.colors.background, &preset.colors.background)
            && current.styles.text_bold == preset.styles.text_bold && current.options.same_as(
            &preset.options,
        )
    }

    /// Compare two optional colors for equality.
    fn color_matches(&self, current: &Option<AnsiColor>, preset: &Option<AnsiColor>) -> (r: bool)
        ensures
            r == (*current == *preset),
    {
        match (current, preset) {
            (None, None) => true,
            (Some(c1), Some(c2)) => *c1 == *c2,
            _ => false,
        }
    }
}

/// Reset timestamp as reported in the statusline input, normalised to RFC 3339.
pub struct ResetsAt(String);

/// The shapes a reset timestamp takes in the statusline input.
pub enum ResetsAtValue {
    /// A JSON string
    Text(String),
    /// A JSON number, as whole epoch seconds (fractions truncated toward zero)
    Seconds(i64),
    /// Any other JSON value
    Other,
}

/// The normalised reading of a reset timestamp: strings are trimmed and read as
/// RFC 3339, numbers as epoch seconds; anything else is absent.
pub open spec fn resets_at_reading(value: ResetsAtValue) -> Option<Seq<char>> {
    match value {
        ResetsAtValue::Text(s) => rfc3339_reading(trimmed(s@)),
        ResetsAtValue::Seconds(n) => epoch_reading(n as int),
        ResetsAtValue::Other => None,
    }
}

impl View for ResetsAt {
    type V = Seq<char>;

    closed spec fn view(&self) -> Seq<char> {
        self.0@
    }
}

impl ResetsAt {
    /// Read a reset timestamp; values of any other shape give `None`, so this
    /// optional field never fails the whole input.
    pub fn from_json(value: &ResetsAtValue) -> (r: Option<ResetsAt>)
        ensures
            match r {
                Some(t) => resets_at_reading(*value) == Some(t@),
                None => resets_at_reading(*value) is None,
            },
    {
        match value {
            ResetsAtValue::Text(s) => match normalize_rfc3339(trim(s.as_str())) {
                Some(t) => Some(ResetsAt(t)),
                None => None,
            },
            ResetsAtValue::Seconds(n) => match rfc3339_from_epoch(*n) {
                Some(t) => Some(ResetsAt(t)),
                None => None,
            },
            ResetsAtValue::Other => None,
        }
    }

    /// Normalized RFC 3339 string so downstream code handles one format.
    pub fn to_rfc3339(&self) -> (r: String)
        ensures
            r@ == self@,
    {
        self.0.clone()
    }
}


/// OpenAI-style nested token details.
pub struct PromptTokensDetails {
    pub cached_tokens: Option<u32>,
    pub audio_tokens: Option<u32>,
}

/// Raw usage data from different LLM providers (Anthropic and OpenAI field names).
pub struct RawUsage {
    pub input_tokens: Option<u32>,
    pub prompt_tokens: Option<u32>,
    pub output_tokens: Option<u32>,
    pub completion_tokens: Option<u32>,
    pub total_tokens: Option<u32>,
    pub cache_creation_input_tokens: Option<u32>,
    pub cache_read_input_tokens: Option<u32>,
    pub cache_creation_prompt_tokens: Option<u32>,
    pub cache_read_prompt_tokens: Option<u32>,
    pub cached_tokens: Option<u32>,
    pub prompt_tokens_details: Option<PromptTokensDetails>,
}

/// Normalized internal representation after processing.
pub struct NormalizedUsage {
    pub input_tokens: u32,
    pub output_tokens: u32,
    pub total_tokens: u32,
    pub cache_creation_input_tokens: u32,
    pub cache_read_input_tokens: u32,
    /// How `total_tokens` was obtained
    pub calculation_source: String,
    /// Which merged counts were present (non-zero)
    pub raw_data_available: Vec<String>,
}

pub struct Message {
    pub usage: Option<RawUsage>,
}

/// One line of a session transcript.
pub struct TranscriptEntry {
    /// The entry's `type` field
    pub entry_type: Option<String>,
    pub message: Option<Message>,
    pub leaf_uuid: Option<String>,
    pub uuid: Option<String>,
    pub parent_uuid: Option<String>,
    pub summary: Option<String>,
}

/// The first present value, else zero.
pub open spec fn first_or_zero(a: Option<u32>, b: Option<u32>) -> int {
    match a {
        Some(x) => x as int,
        None => match b {
            Some(y) => y as int,
            None => 0,
        },
    }
}

/// Input tokens: `input_tokens`, else `prompt_tokens`.
pub open spec fn merged_input(u: RawUsage) -> int {
    first_or_zero(u.input_tokens, u.prompt_tokens)
}

/// Output tokens: `output_tokens`, else `completion_tokens`.
pub open spec fn merged_output(u: RawUsage) -> int {
    first_or_zero(u.output_tokens, u.completion_tokens)
}

/// Cache creation: the Anthropic field, else the OpenAI one.
pub open spec fn merged_cache_creation(u: RawUsage) -> int {
    first_or_zero(u.cache_creation_input_tokens, u.cache_creation_prompt_tokens)
}

/// Cache reads: Anthropic, then OpenAI, then `cached_tokens`, then the nested details.
pub open spec fn merged_cache_read(u: RawUsage) -> int {
    match u.cache_read_input_tokens {
        Some(x) => x as int,
        None => match u.cache_read_prompt_tokens {
            Some(x) => x as int,
            None => match u.cached_tokens {
                Some(x) => x as int,
                None => match u.prompt_tokens_details {
                    Some(d) => match d.cached_tokens {
                        Some(x) => x as int,
                        None => 0,
                    },
                    None => 0,
                },
            },
        },
    }
}

pub open spec fn merged_total(u: RawUsage) -> int {
    match u.total_tokens {
        Some(x) => x as int,
        None => 0,
    }
}

/// Sum of the merged component counts.
pub open spec fn component_sum(u: RawUsage) -> int {
    merged_input(u) + merged_output(u) + merged_cache_read(u) + merged_cache_creation(u)
}

/// The names of the merged counts that are non-zero, in a fixed order.
pub open spec fn available_fields(u: RawUsage) -> Seq<Seq<char>> {
    (if merged_input(u) > 0 { seq!["input_tokens"@] } else { seq![] }) + (if merged_output(u) > 0 {
        seq!["output_tokens"@]
    } else {
        seq![]
    }) + (if merged_total(u) > 0 { seq!["total_tokens"@] } else { seq![] }) + (if merged_cache_creation(u) > 0 {
        seq!["cache_creation"@]
    } else {
        seq![]
    }) + (if merged_cache_read(u) > 0 { seq!["cache_read"@] } else { seq![] })
}

/// What `normalize` makes of raw usage.
pub open spec fn normalized_spec(u: RawUsage, n: NormalizedUsage) -> bool {
    &&& n.input_tokens == merged_input(u)
    &&& n.output_tokens == merged_output(u)
    &&& n.cache_creation_input_tokens == merged_cache_creation(u)
    &&& n.cache_read_input_tokens == merged_cache_read(u)
    &&& n.total_tokens == (if merged_total(u) > 0 { merged_total(u) } else { component_sum(u) })
    &&& n.calculation_source@ == (if merged_total(u) > 0 {
        "total_tokens_direct"@
    } else if component_sum(u) > 0 {
        "total_from_components"@
    } else {
        Seq::<char>::empty()
    })
    &&& n.raw_data_available@.map_values(|f: String| f@) == available_fields(u)
}

fn first_present(a: Option<u32>, b: Option<u32>) -> (r: u32)
    ensures
        r == first_or_zero(a, b),
{
    match a {
        Some(x) => x,
        None => match b {
            Some(y) => y,
            None => 0,
        },
    }
}

fn push_field(fields: &mut Vec<String>, present: bool, name: &str)
    ensures
        final(fields)@.map_values(|f: String| f@) == old(fields)@.map_values(|f: String| f@) + (
        if present {
            seq![name@]
        } else {
            seq![]
        }),
{
    if present {
        fields.push(to_string(name));
    }
    assert(final(fields)@.map_values(|f: String| f@) =~= old(fields)@.map_values(|f: String| f@) + (
    if present {
        seq![name@]
    } else {
        seq![]
    }));
}

impl RawUsage {
    /// Convert raw usage data to normalized form: each count merged with
    /// Anthropic fields first, and the total taken from `total_tokens` when it is
    /// non-zero, else summed from the components.
    pub fn normalize(self) -> (r: NormalizedUsage)
        requires
            merged_total(self) == 0 ==> component_sum(self) <= u32::MAX,
        ensures
            normalized_spec(self, r),
    {
        let input = first_present(self.input_tokens, self.prompt_tokens);
        let output = first_present(self.output_tokens, self.completion_tokens);
        let total = match self.total_tokens {
            Some(t) => t,
            None => 0,
        };
        let cache_creation = first_present(
            self.cache_creation_input_tokens,
            self.cache_creation_prompt_tokens,
        );
        let nested = match &self.prompt_tokens_details {
            Some(d) => d.cached_tokens,
            None => None,
        };
        let cache_read = match self.cache_read_input_tokens {
            Some(x) => x,
            None => match self.cache_read_prompt_tokens {
                Some(x) => x,
                None => first_present(self.cached_tokens, nested),
            },
        };

        let mut fields: Vec<String> = Vec::new();
        assert(fields@.map_values(|f: String| f@) =~= Seq::<Seq<char>>::empty());
        push_field(&mut fields, input > 0, "input_tokens");
        push_field(&mut fields, output > 0, "output_tokens");
        push_field(&mut fields, total > 0, "total_tokens");
        push_field(&mut fields, cache_creation > 0, "cache_creation");
        push_field(&mut fields, cache_read > 0, "cache_read");
        assert(fields@.map_values(|f: String| f@) =~= available_fields(self));

        let mut source = String::new();
        let total_value = if total > 0 {
            push_str(&mut source, "total_tokens_direct");
            total
        } else if input > 0 || output > 0 || cache_read > 0 || cache_creation > 0 {
            push_str(&mut source, "total_from_components");
            input + output + cache_read + cache_creation
        } else {
            0
        };
        assert(source@ =~= (if merged_total(self) > 0 {
            "total_tokens_direct"@
        } else if component_sum(self) > 0 {
            "total_from_components"@
        } else {
            Seq::<char>::empty()
        }));

        NormalizedUsage {
            input_tokens: input,
            output_tokens: output,
            total_tokens: total_value,
            cache_creation_input_tokens: cache_creation,
            cache_read_input_tokens: cache_read,
            calculation_source: source,
            raw_data_available: fields,
        }
    }
}

/// Tokens that take context window space: input, both cache counts and output
/// (this turn's output is next turn's input).
pub open spec fn context_sum(u: NormalizedUsage) -> int {
    u.input_tokens + u.cache_creation_input_tokens + u.cache_read_input_tokens + u.output_tokens
}

impl NormalizedUsage {
    /// Get tokens that count toward the context window.
    pub fn context_tokens(&self) -> (r: u32)
        requires
            context_sum(*self) <= u32::MAX,
        ensures
            r == context_sum(*self),
    {
        self.input_tokens + self.cache_creation_input_tokens + self.cache_read_input_tokens
            + self.output_tokens
    }

    /// Total tokens for cost: `total_tokens` when non-zero, else the sum of the components.
    pub fn total_for_cost(&self) -> (r: u32)
        requires
            self.total_tokens == 0 ==> context_sum(*self) <= u32::MAX,
        ensures
            r == (if self.total_tokens > 0 {
                self.total_tokens as int
            } else {
                context_sum(*self)
            }),
    {
        if self.total_tokens > 0 {
            self.total_tokens
        } else {
            self.input_tokens + self.output_tokens + self.cache_creation_input_tokens
                + self.cache_read_input_tokens
        }
    }

    /// The token count for general display: context tokens when any, else the
    /// total, else the larger of input and output.
    pub fn display_tokens(&self) -> (r: u32)
        requires
            context_sum(*self) <= u32::MAX,
        ensures
            r == (if context_sum(*self) > 0 {
                context_sum(*self)
            } else if self.total_tokens > 0 {
                self.total_tokens as int
            } else if self.input_tokens >= self.output_tokens {
                self.input_tokens as int
            } else {
                self.output_tokens as int
            }),
    {
        let context = self.context_tokens();
        if context > 0 {
            return context;
        }
        if self.total_tokens > 0 {
            return self.total_tokens;
        }
        if self.input_tokens >= self.output_tokens {
            self.input_tokens
        } else {
            self.output_tokens
        }
    }
}


/// A configuration always matches itself as a theme preset, so it is never
/// "modified" from an identical preset.
pub proof fn law_matches_theme_reflexive(config: &Config)
    ensures
        config_matches(config, config),
{
}

/// The total of normalized usage is what cost accounting reads back:
/// `total_for_cost` of a normalized value equals its `total_tokens`.
pub proof fn law_normalized_total_for_cost(u: RawUsage, n: NormalizedUsage)
    requires
        normalized_spec(u, n),
    ensures
        (if n.total_tokens > 0 {
            n.total_tokens as int
        } else {
            context_sum(n)
        }) == n.total_tokens,
{
}

/// Display tokens are zero exactly when there are no context tokens and no total.
pub proof fn law_display_tokens_zero(n: NormalizedUsage)
    ensures
        ((if context_sum(n) > 0 {
            context_sum(n)
        } else if n.total_tokens > 0 {
            n.total_tokens as int
        } else if n.input_tokens >= n.output_tokens {
            n.input_tokens as int
        } else {
            n.output_tokens as int
        }) == 0) <==> (context_sum(n) == 0 && n.total_tokens == 0),
{
}

/// Normalizing keeps every merged count and never loses the total: the
/// normalized total is the reported total, or the sum of the components.
pub proof fn law_normalize_total(u: RawUsage, n: NormalizedUsage)
    requires
        normalized_spec(u, n),
    ensures
        merged_total(u) > 0 ==> n.total_tokens == merged_total(u),
        merged_total(u) == 0 ==> n.total_tokens == context_sum(n),
{
}


/// Each normalized count is read from the raw fields with the Anthropic name
/// first: input is `input_tokens`, else `prompt_tokens`; output is
/// `output_tokens`, else `completion_tokens`; cache creation is
/// `cache_creation_input_tokens`, else `cache_creation_prompt_tokens`; cache
/// reads are `cache_read_input_tokens`, else `cache_read_prompt_tokens`, else
/// `cached_tokens`, else the nested `prompt_tokens_details.cached_tokens`; a
/// count with none of its fields is 0. The total is a non-zero `total_tokens`,
/// else the sum of the four counts, and the source and field list say which.
pub proof fn law_normalize_reads_fields(u: RawUsage, n: NormalizedUsage)
    requires
        normalized_spec(u, n),
    ensures
        forall|x: u32| u.input_tokens == Some(x) ==> n.input_tokens == x,
        forall|y: u32| u.input_tokens is None && u.prompt_tokens == Some(y) ==> n.input_tokens == y,
        u.input_tokens is None && u.prompt_tokens is None ==> n.input_tokens == 0,
        forall|x: u32| u.output_tokens == Some(x) ==> n.output_tokens == x,
        forall|y: u32|
            u.output_tokens is None && u.completion_tokens == Some(y) ==> n.output_tokens == y,
        u.output_tokens is None && u.completion_tokens is None ==> n.output_tokens == 0,
        forall|x: u32| u.cache_creation_input_tokens == Some(x) ==> n.cache_creation_input_tokens == x,
        forall|y: u32|
            u.cache_creation_input_tokens is None && u.cache_creation_prompt_tokens == Some(y)
                ==> n.cache_creation_input_tokens == y,
        u.cache_creation_input_tokens is None && u.cache_creation_prompt_tokens is None
            ==> n.cache_creation_input_tokens == 0,
        forall|x: u32| u.cache_read_input_tokens == Some(x) ==> n.cache_read_input_tokens == x,
        forall|y: u32|
            u.cache_read_input_tokens is None && u.cache_read_prompt_tokens == Some(y)
                ==> n.cache_read_input_tokens == y,
        forall|y: u32|
            u.cache_read_input_tokens is None && u.cache_read_prompt_tokens is None
                && u.cached_tokens == Some(y) ==> n.cache_read_input_tokens == y,
        forall|y: u32|
            u.cache_read_input_tokens is None && u.cache_read_prompt_tokens is None
                && u.cached_tokens is None && u.prompt_tokens_details is Some
                && u.prompt_tokens_details->0.cached_tokens == Some(y)
                ==> n.cache_read_input_tokens == y,
        u.cache_read_input_tokens is None && u.cache_read_prompt_tokens is None
            && u.cached_tokens is None && (u.prompt_tokens_details is None
            || u.prompt_tokens_details->0.cached_tokens is None) ==> n.cache_read_input_tokens == 0,
        forall|t: u32| u.total_tokens == Some(t) && t > 0 ==> n.total_tokens == t
            && n.calculation_source@ == "total_tokens_direct"@,
        (u.total_tokens is None || u.total_tokens == Some(0u32)) ==> n.total_tokens
            == n.input_tokens + n.output_tokens + n.cache_read_input_tokens
            + n.cache_creation_input_tokens,
        (u.total_tokens is None || u.total_tokens == Some(0u32)) && n.total_tokens > 0
            ==> n.calculation_source@ == "total_from_components"@,
        n.total_tokens == 0 ==> n.calculation_source@.len() == 0,
        n.raw_data_available@.map_values(|f: String| f@) == (if n.input_tokens > 0 {
            seq!["input_tokens"@]
        } else {
            seq![]
        }) + (if n.output_tokens > 0 {
            seq!["output_tokens"@]
        } else {
            seq![]
        }) + (if u.total_tokens is Some && u.total_tokens->0 > 0 {
            seq!["total_tokens"@]
        } else {
            seq![]
        }) + (if n.cache_creation_input_tokens > 0 {
            seq!["cache_creation"@]
        } else {
            seq![]
        }) + (if n.cache_read_input_tokens > 0 {
            seq!["cache_read"@]
        } else {
            seq![]
        }),
{
    reveal_strlit("total_tokens_direct");
}

/// A configuration matches a theme preset exactly when the style mode and
/// separator agree, there are as many segments, and segment by segment the id,
/// the enabled flag, both icons, the three colors, boldness and the option
/// table agree.
pub proof fn law_matches_theme_fields(config: &Config, preset: &Config)
    ensures
        config_matches(config, preset) <==> {
            &&& config.style.mode == preset.style.mode
            &&& config.style.separator@ == preset.style.separator@
            &&& config.segments@.len() == preset.segments@.len()
            &&& forall|i: int|
                #![trigger config.segments@[i]]
                0 <= i < config.segments@.len() ==> {
                    let c = config.segments@[i];
                    let p = preset.segments@[i];
                    &&& c.id == p.id
                    &&& c.enabled == p.enabled
                    &&& c.icon.plain@ == p.icon.plain@
                    &&& c.icon.nerd_font@ == p.icon.nerd_font@
                    &&& c.colors.icon == p.colors.icon
                    &&& c.colors.text == p.colors.text
                    &&& c.colors.background == p.colors.background
                    &&& c.styles.text_bold == p.styles.text_bold
                    &&& c.options@ == p.options@
                }
        },
        forall|i: int|
            0 <= i < config.segments@.len() && i < preset.segments@.len()
                && #[trigger] config.segments@[i].enabled != preset.segments@[i].enabled
                ==> !config_matches(config, preset),
{
}

} // verus!
