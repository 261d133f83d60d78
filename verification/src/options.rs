//! Registry of per-segment options and helpers to edit them from the CLI and the TUI.
use vstd::prelude::*;

use crate::option_map::{display_text, OptionMap, OptionVal, OptionValue};
use crate::text::{
    seq_less, all_ascii, ascii_lowercase, float_syntax, i64_literal, is_float_syntax, parse_i64, str_eq,
    to_lowercase, to_string, trim, trimmed, unicode_lowercase,
};
use crate::types::{Config, SegmentConfig, SegmentId};

verus! {

/// Description of an option a segment understands.
pub struct OptionSpec {
    pub key: &'static str,
    pub default: &'static str,
    pub description: &'static str,
    /// Allowed values when the option is an enumeration (empty: free-form)
    pub choices: &'static [&'static str],
}

/// Model of an [`OptionSpec`].
pub struct OptionSpecView {
    pub key: Seq<char>,
    pub default: Seq<char>,
    pub description: Seq<char>,
    pub choices: Seq<Seq<char>>,
}

impl View for OptionSpec {
    type V = OptionSpecView;

    open spec fn view(&self) -> OptionSpecView {
        OptionSpecView {
            key: self.key@,
            default: self.default@,
            description: self.description@,
            choices: self.choices@.map_values(|c: &str| c@),
        }
    }
}

/// A boolean option: its default is `true` or `false`.
pub open spec fn spec_is_bool(o: OptionSpecView) -> bool {
    o.default == "true"@ || o.default == "false"@
}

impl OptionSpec {
    pub fn is_bool(&self) -> (b: bool)
        ensures
            b == spec_is_bool(self@),
    {
        str_eq(self.default, "true") || str_eq(self.default, "false")
    }
}

/// The options each segment reads from its `[segments.options]` table.
pub open spec fn known_spec(id: SegmentId) -> Seq<OptionSpecView> {
    match id {
        SegmentId::Model => seq![
            OptionSpecView {
                key: "show_effort"@,
                default: "true"@,
                description: "Append the effort level reported in the statusline input (e.g. \"· high\")"@,
                choices: seq![],
            },
        ],
        SegmentId::Usage => seq![
            OptionSpecView {
                key: "reset_format"@,
                default: "time"@,
                description: "\"time\" (03:20 / Thu 00h) or \"countdown\" (4h 52m / 6d 3h)"@,
                choices: seq!["time"@, "countdown"@],
            },
            OptionSpecView {
                key: "show_weekly"@,
                default: "true"@,
                description: "Show the weekly usage block"@,
                choices: seq![],
            },
            OptionSpecView {
                key: "cache_duration"@,
                default: "300"@,
                description: "Seconds to cache usage API responses"@,
                choices: seq![],
            },
            OptionSpecView {
                key: "timeout"@,
                default: "2"@,
                description: "Usage API request timeout in seconds"@,
                choices: seq![],
            },
            OptionSpecView {
                key: "api_base_url"@,
                default: "https://api.anthropic.com"@,
                description: "Usage API base URL (override for proxies)"@,
                choices: seq![],
            },
        ],
        SegmentId::Credits => seq![
            OptionSpecView {
                key: "show_percent"@,
                default: "true"@,
                description: "Append the used percentage of the monthly credit limit"@,
                choices: seq![],
            },
        ],
        SegmentId::Git => seq![
            OptionSpecView {
                key: "show_sha"@,
                default: "false"@,
                description: "Show the short commit SHA next to the branch"@,
                choices: seq![],
            },
        ],
        _ => seq![],
    }
}

/// Options each segment reads from its `[segments.options]` table.
pub fn known_options(id: SegmentId) -> (r: &'static [OptionSpec])
    ensures
        r@.map_values(|o: OptionSpec| o@) == known_spec(id),
{
    let r: &'static [OptionSpec] = match id {
        SegmentId::Model => &[
            OptionSpec {
                key: "show_effort",
                default: "true",
                description: "Append the effort level reported in the statusline input (e.g. \"· high\")",
                choices: &[],
            },
        ],
        SegmentId::Usage => &[
            OptionSpec {
                key: "reset_format",
                default: "time",
                description: "\"time\" (03:20 / Thu 00h) or \"countdown\" (4h 52m / 6d 3h)",
                choices: &["time", "countdown"],
            },
            OptionSpec {
                key: "show_weekly",
                default: "true",
                description: "Show the weekly usage block",
                choices: &[],
            },
            OptionSpec {
                key: "cache_duration",
                default: "300",
                description: "Seconds to cache usage API responses",
                choices: &[],
            },
            OptionSpec {
                key: "timeout",
                default: "2",
                description: "Usage API request timeout in seconds",
                choices: &[],
            },
            OptionSpec {
                key: "api_base_url",
                default: "https://api.anthropic.com",
                description: "Usage API base URL (override for proxies)",
                choices: &[],
            },
        ],
        SegmentId::Credits => &[
            OptionSpec {
                key: "show_percent",
                default: "true",
                description: "Append the used percentage of the monthly credit limit",
                choices: &[],
            },
        ],
        SegmentId::Git => &[
            OptionSpec {
                key: "show_sha",
                default: "false",
                description: "Show the short commit SHA next to the branch",
                choices: &[],
            },
        ],
        _ => &[],
    };
    proof {
        let v = r@.map_values(|o: OptionSpec| o@);
        let k = known_spec(id);
        assert(v.len() == k.len());
        assert forall|i: int| 0 <= i < v.len() implies v[i] =~~= k[i] by {
            assert(r@[i].choices@.map_values(|c: &str| c@) =~= k[i].choices);
        }
        assert(v =~~= k);
    }
    r
}


/// The first spec with key `k`.
pub open spec fn spec_lookup(specs: Seq<OptionSpecView>, k: Seq<char>) -> Option<OptionSpecView>
    decreases specs.len(),
{
    if specs.len() == 0 {
        None
    } else if specs[0].key == k {
        Some(specs[0])
    } else {
        spec_lookup(specs.drop_first(), k)
    }
}

/// Whether `k` is an option the segment understands.
pub open spec fn is_known_key(id: SegmentId, k: Seq<char>) -> bool {
    spec_lookup(known_spec(id), k) is Some
}

/// The spec of option `key` among `specs`.
pub(crate) fn find_spec(specs: &'static [OptionSpec], key: &str) -> (r: Option<&'static OptionSpec>)
    ensures
        match r {
            Some(o) => spec_lookup(specs@.map_values(|o: OptionSpec| o@), key@) == Some(o@),
            None => spec_lookup(specs@.map_values(|o: OptionSpec| o@), key@) is None,
        },
{
    let ghost v = specs@.map_values(|o: OptionSpec| o@);
    let mut i: usize = 0;
    assert(v.skip(0) =~= v);
    while i < specs.len()
        invariant
            i <= specs@.len(),
            v == specs@.map_values(|o: OptionSpec| o@),
            spec_lookup(v, key@) == spec_lookup(v.skip(i as int), key@),
        decreases specs.len() - i,
    {
        assert(v.skip(i as int).drop_first() =~= v.skip(i + 1));
        assert(v.skip(i as int)[0] == specs@[i as int]@);
        if str_eq(specs[i].key, key) {
            return Some(&specs[i]);
        }
        i = i + 1;
    }
    None
}

/// The default text of option `k`: its spec's default, or empty when unknown.
pub open spec fn default_text(id: SegmentId, k: Seq<char>) -> Seq<char> {
    match spec_lookup(known_spec(id), k) {
        Some(o) => o.default,
        None => Seq::empty(),
    }
}

/// Current value of an option as text: the stored value, else the default.
pub open spec fn current_text(segment: &SegmentConfig, k: Seq<char>) -> Seq<char> {
    if segment.options@.contains_key(k) {
        display_text(segment.options@[k])
    } else {
        default_text(segment.id, k)
    }
}

/// Render a stored option value as the user would type it.
pub fn display_value(value: &OptionValue) -> (r: String)
    ensures
        r@ == display_text(value@),
{
    value.display()
}

/// Current value of an option as text, and whether it comes from the default.
pub fn current_value(segment: &SegmentConfig, key: &str) -> (r: (String, bool))
    ensures
        r.0@ == current_text(segment, key@),
        r.1 == !segment.options@.contains_key(key@),
{
    match segment.options.get(key) {
        Some(v) => (display_value(v), false),
        None => {
            let text = match find_spec(known_options(segment.id), key) {
                Some(o) => to_string(o.default),
                None => String::new(),
            };
            (text, true)
        },
    }
}

/// Segment id as written in config.toml (snake_case).
pub open spec fn segment_name_text(id: SegmentId) -> Seq<char> {
    match id {
        SegmentId::Model => "model"@,
        SegmentId::Directory => "directory"@,
        SegmentId::Git => "git"@,
        SegmentId::ContextWindow => "context_window"@,
        SegmentId::Usage => "usage"@,
        SegmentId::Credits => "credits"@,
        SegmentId::Cost => "cost"@,
        SegmentId::Session => "session"@,
        SegmentId::OutputStyle => "output_style"@,
        SegmentId::Update => "update"@,
    }
}

/// The segment whose config.toml name is exactly `s`.
pub open spec fn segment_named(s: Seq<char>) -> Option<SegmentId> {
    if s == "model"@ {
        Some(SegmentId::Model)
    } else if s == "directory"@ {
        Some(SegmentId::Directory)
    } else if s == "git"@ {
        Some(SegmentId::Git)
    } else if s == "context_window"@ {
        Some(SegmentId::ContextWindow)
    } else if s == "usage"@ {
        Some(SegmentId::Usage)
    } else if s == "credits"@ {
        Some(SegmentId::Credits)
    } else if s == "cost"@ {
        Some(SegmentId::Cost)
    } else if s == "session"@ {
        Some(SegmentId::Session)
    } else if s == "output_style"@ {
        Some(SegmentId::OutputStyle)
    } else if s == "update"@ {
        Some(SegmentId::Update)
    } else {
        None
    }
}

/// Segment id as written in config.toml (snake_case).
pub fn segment_name(id: SegmentId) -> (r: String)
    ensures
        r@ == segment_name_text(id),
{
    let name = match id {
        SegmentId::Model => "model",
        SegmentId::Directory => "directory",
        SegmentId::Git => "git",
        SegmentId::ContextWindow => "context_window",
        SegmentId::Usage => "usage",
        SegmentId::Credits => "credits",
        SegmentId::Cost => "cost",
        SegmentId::Session => "session",
        SegmentId::OutputStyle => "output_style",
        SegmentId::Update => "update",
    };
    to_string(name)
}

/// The segment a name denotes, read case-insensitively and ignoring surrounding whitespace.
pub fn parse_segment_id(name: &str) -> (r: Option<SegmentId>)
    ensures
        r == segment_named(unicode_lowercase(trimmed(name@))),
        all_ascii(trimmed(name@)) ==> r == segment_named(ascii_lowercase(trimmed(name@))),
{
    let lowered = to_lowercase(trim(name));
    let l = lowered.as_str();
    if str_eq(l, "model") {
        Some(SegmentId::Model)
    } else if str_eq(l, "directory") {
        Some(SegmentId::Directory)
    } else if str_eq(l, "git") {
        Some(SegmentId::Git)
    } else if str_eq(l, "context_window") {
        Some(SegmentId::ContextWindow)
    } else if str_eq(l, "usage") {
        Some(SegmentId::Usage)
    } else if str_eq(l, "credits") {
        Some(SegmentId::Credits)
    } else if str_eq(l, "cost") {
        Some(SegmentId::Cost)
    } else if str_eq(l, "session") {
        Some(SegmentId::Session)
    } else if str_eq(l, "output_style") {
        Some(SegmentId::OutputStyle)
    } else if str_eq(l, "update") {
        Some(SegmentId::Update)
    } else {
        None
    }
}

/// All segment ids, in display order.
pub const ALL_SEGMENTS: [SegmentId; 10] = [
    SegmentId::Model,
    SegmentId::Directory,
    SegmentId::Git,
    SegmentId::ContextWindow,
    SegmentId::Usage,
    SegmentId::Credits,
    SegmentId::Cost,
    SegmentId::Session,
    SegmentId::OutputStyle,
    SegmentId::Update,
];

/// What a typed value is read as, when its text alone decides: booleans,
/// integers, and text that is not number syntax. `None` for floating-point
/// text, whose value comes from the float reading.
pub open spec fn parse_base(t: Seq<char>) -> Option<OptionVal> {
    if t == "true"@ {
        Some(OptionVal::Bool(true))
    } else if t == "false"@ {
        Some(OptionVal::Bool(false))
    } else if i64_literal(t) is Some {
        Some(OptionVal::Int(i64_literal(t)->0))
    } else if float_syntax(t) {
        None
    } else {
        Some(OptionVal::Str(t))
    }
}

/// The value typed text stands for when no float reading is needed.
fn parse_plain(t: &str) -> (r: Option<OptionValue>)
    ensures
        match r {
            Some(v) => parse_base(t@) == Some(v@),
            None => parse_base(t@) is None,
        },
{
    if str_eq(t, "true") {
        Some(OptionValue::Bool(true))
    } else if str_eq(t, "false") {
        Some(OptionValue::Bool(false))
    } else {
        match parse_i64(t) {
            Some(n) => Some(OptionValue::Int(n)),
            None => if is_float_syntax(t) {
                None
            } else {
                Some(OptionValue::Str(to_string(t)))
            },
        }
    }
}

/// Parse a CLI value: booleans and numbers become typed, anything else stays a
/// string. Text with floating-point syntax is handed, trimmed, to `read_float`,
/// which gives the stored value of that `f64`.
pub fn parse_value<F: Fn(&str) -> OptionValue>(raw: &str, read_float: &F) -> (v: OptionValue)
    requires
        forall|s: &str| read_float.requires((s,)),
    ensures
        match parse_base(trimmed(raw@)) {
            Some(b) => v@ == b,
            None => exists|s: &str| s@ == trimmed(raw@) && read_float.ensures((s,), v),
        },
{
    let t = trim(raw);
    match parse_plain(t) {
        Some(v) => v,
        None => {
            let v = read_float(t);
            assert(read_float.ensures((t,), v));
            v
        },
    }
}


/// Text views of a list of strings.
pub open spec fn texts(v: Seq<String>) -> Seq<Seq<char>> {
    v.map_values(|s: String| s@)
}

pub open spec fn sorted_strictly(s: Seq<Seq<char>>) -> bool {
    forall|i: int, j: int| 0 <= i < j < s.len() ==> seq_less(s[i], s[j])
}

/// The keys of the options a segment understands, in registry order.
pub open spec fn known_keys(id: SegmentId) -> Seq<Seq<char>> {
    known_spec(id).map_values(|o: OptionSpecView| o.key)
}

proof fn lemma_spec_lookup_contains(specs: Seq<OptionSpecView>, k: Seq<char>)
    ensures
        spec_lookup(specs, k) is Some <==> specs.map_values(|o: OptionSpecView| o.key).contains(k),
        spec_lookup(specs, k) matches Some(o) ==> o.key == k,
    decreases specs.len(),
{
    let keys = specs.map_values(|o: OptionSpecView| o.key);
    if specs.len() > 0 {
        if specs[0].key == k {
            assert(keys[0] == k);
        }
        lemma_spec_lookup_contains(specs.drop_first(), k);
        let rest = specs.drop_first().map_values(|o: OptionSpecView| o.key);
        assert(rest =~= keys.drop_first());
        if keys.contains(k) && specs[0].key != k {
            let i = choose|i: int| 0 <= i < keys.len() && keys[i] == k;
            assert(rest[i - 1] == k);
        }
        if rest.contains(k) {
            let i = choose|i: int| 0 <= i < rest.len() && rest[i] == k;
            assert(keys[i + 1] == k);
        }
    }
}

/// The keys `option_keys` lists: the known options first, in registry order,
/// then the other keys present in the table, sorted.
pub open spec fn option_keys_spec(segment: &SegmentConfig, keys: Seq<Seq<char>>) -> bool {
    let known = known_keys(segment.id);
    &&& known.len() <= keys.len()
    &&& keys.take(known.len() as int) == known
    &&& sorted_strictly(keys.skip(known.len() as int))
    &&& forall|k: Seq<char>|
        #[trigger] keys.skip(known.len() as int).contains(k) <==> (segment.options@.contains_key(k)
            && !known.contains(k))
}

/// Inserts `k` into a strictly sorted list that does not hold it.
fn insert_sorted(v: &mut Vec<String>, k: String)
    requires
        sorted_strictly(texts(old(v)@)),
        !texts(old(v)@).contains(k@),
    ensures
        sorted_strictly(texts(final(v)@)),
        forall|x: Seq<char>| #[trigger]
            texts(final(v)@).contains(x) <==> (texts(old(v)@).contains(x) || x == k@),
{
    let kc = crate::text::chars_of(k.as_str());
    let mut p: usize = 0;
    while p < v.len() && !crate::text::chars_less(&kc, &crate::text::chars_of(v[p].as_str()))
        invariant
            p <= v.len(),
            kc@ == k@,
            v@ == old(v)@,
            sorted_strictly(texts(v@)),
            !texts(v@).contains(k@),
            forall|q: int| 0 <= q < p ==> seq_less(texts(v@)[q], k@),
        decreases v.len() - p,
    {
        proof {
            let x = texts(v@)[p as int];
            assert(texts(v@).contains(x));
            if x != k@ {
                crate::text::lemma_seq_less_total(x, k@);
            }
        }
        p = p + 1;
    }
    let ghost old_t = texts(v@);
    v.insert(p, k);
    let ghost new_t = texts(v@);
    assert(new_t =~= old_t.insert(p as int, k@));
    assert forall|i: int, j: int| 0 <= i < j < new_t.len() implies seq_less(new_t[i], new_t[j]) by {
        if j < p {
        } else if j == p {
        } else if i < p {
            // new_t[j] = old_t[j - 1], and k < old_t[p] <= old_t[j - 1]
            assert(seq_less(old_t[i], k@));
            assert(seq_less(k@, old_t[p as int]));
            if j - 1 > p {
                crate::text::lemma_seq_less_transitive(k@, old_t[p as int], old_t[j - 1]);
            }
            crate::text::lemma_seq_less_transitive(old_t[i], k@, old_t[j - 1]);
        } else if i == p {
            assert(seq_less(k@, old_t[p as int]));
            if j - 1 > p {
                crate::text::lemma_seq_less_transitive(k@, old_t[p as int], old_t[j - 1]);
            }
        } else {
        }
    }
    assert forall|x: Seq<char>| #[trigger] new_t.contains(x) <==> (old_t.contains(x) || x == k@) by {
        if old_t.contains(x) {
            let i = choose|i: int| 0 <= i < old_t.len() && old_t[i] == x;
            if i < p {
                assert(new_t[i] == x);
            } else {
                assert(new_t[i + 1] == x);
            }
        }
        if x == k@ {
            assert(new_t[p as int] == x);
        }
        if new_t.contains(x) {
            let i = choose|i: int| 0 <= i < new_t.len() && new_t[i] == x;
            if i < p {
                assert(old_t[i] == x);
            } else if i > p {
                assert(old_t[i - 1] == x);
            }
        }
    }
}

/// Option keys of a segment in display order: known options first, then any
/// custom keys present in the config (sorted).
pub fn option_keys(segment: &SegmentConfig) -> (r: Vec<String>)
    ensures
        option_keys_spec(segment, texts(r@)),
{
    let specs = known_options(segment.id);
    let ghost known = known_keys(segment.id);
    let mut keys: Vec<String> = Vec::new();
    let mut i: usize = 0;
    assert(known.len() == specs@.map_values(|o: OptionSpec| o@).len());
    assert(texts(keys@) =~= known.take(0));
    while i < specs.len()
        invariant
            i <= specs@.len(),
            specs@.map_values(|o: OptionSpec| o@) == known_spec(segment.id),
            known == known_keys(segment.id),
            known.len() == specs@.len(),
            texts(keys@) == known.take(i as int),
        decreases specs.len() - i,
    {
        assert(specs@[i as int]@ == known_spec(segment.id)[i as int]);
        assert(known[i as int] == known_spec(segment.id)[i as int].key);
        let key = to_string(specs[i].key);
        assert(key@ == known[i as int]);
        let ghost prev = keys@;
        keys.push(key);
        assert(keys@ == prev.push(key));
        assert(texts(keys@) =~= texts(prev).push(known[i as int]));
        assert(known.take(i + 1) =~= known.take(i as int).push(known[i as int]));
        i = i + 1;
    }
    assert(known.take(specs@.len() as int) =~= known);
    segment.options.keys_cover();
    let mut extra: Vec<String> = Vec::new();
    let mut j: usize = 0;
    let n = segment.options.len();
    while j < n
        invariant
            j <= n,
            n == segment.options.pairs().len(),
            specs@.map_values(|o: OptionSpec| o@) == known_spec(segment.id),
            known == known_keys(segment.id),
            crate::option_map::keys_distinct(segment.options.pairs()),
            sorted_strictly(texts(extra@)),
            forall|x: Seq<char>| #[trigger]
                texts(extra@).contains(x) <==> (exists|q: int|
                    0 <= q < j && segment.options.pairs()[q].0 == x) && !known.contains(x),
        decreases n - j,
    {
        let (k, _) = segment.options.entry(j);
        let found = find_spec(specs, k.as_str());
        proof {
            lemma_spec_lookup_contains(known_spec(segment.id), k@);
        }
        let ghost before = texts(extra@);
        if found.is_none() {
            proof {
                if before.contains(k@) {
                    let q = choose|q: int| 0 <= q < j && segment.options.pairs()[q].0 == k@;
                    assert(segment.options.pairs()[j as int].0 == k@);
                }
            }
            insert_sorted(&mut extra, k.clone());
        }
        assert forall|x: Seq<char>| #[trigger]
            texts(extra@).contains(x) <==> (exists|q: int|
                0 <= q < j + 1 && segment.options.pairs()[q].0 == x) && !known.contains(x) by {
            if exists|q: int| 0 <= q < j + 1 && segment.options.pairs()[q].0 == x {
                let q = choose|q: int| 0 <= q < j + 1 && segment.options.pairs()[q].0 == x;
                if q < j {
                    assert(exists|q2: int| 0 <= q2 < j && segment.options.pairs()[q2].0 == x);
                }
            }
            if exists|q: int| 0 <= q < j && segment.options.pairs()[q].0 == x {
                let q = choose|q: int| 0 <= q < j && segment.options.pairs()[q].0 == x;
                assert(0 <= q < j + 1 && segment.options.pairs()[q].0 == x);
            }
        }
        j = j + 1;
    }
    let ghost known_part = texts(keys@);
    let ghost extra_part = texts(extra@);
    keys.append(&mut extra);
    assert(texts(keys@) =~= known_part + extra_part);
    assert(texts(keys@).take(known.len() as int) =~= known);
    assert(texts(keys@).skip(known.len() as int) =~= extra_part);
    assert forall|k: Seq<char>| #[trigger] extra_part.contains(k) <==> (segment.options@.contains_key(k)
        && !known.contains(k)) by {
        if segment.options@.contains_key(k) {
            assert(segment.options.key_order().contains(k));
            let q = choose|q: int|
                0 <= q < segment.options.key_order().len() && segment.options.key_order()[q] == k;
            assert(segment.options.pairs()[q].0 == k);
        }
        if exists|q: int| 0 <= q < n && segment.options.pairs()[q].0 == k {
            let q = choose|q: int| 0 <= q < n && segment.options.pairs()[q].0 == k;
            assert(segment.options.key_order()[q] == k);
        }
    }
    keys
}


/// What pressing Enter on an option does in the TUI.
pub enum OptionEdit {
    /// Value was switched in place (bool toggle or next choice); holds the new value
    Cycled(String),
    /// Free-form value: open a text input pre-filled with this value
    Prompt(String),
}

/// Position of the first `x` in `s`.
pub open spec fn first_index(s: Seq<Seq<char>>, x: Seq<char>) -> Option<int>
    decreases s.len(),
{
    if s.len() == 0 {
        None
    } else if s[0] == x {
        Some(0)
    } else {
        match first_index(s.drop_first(), x) {
            Some(i) => Some(i + 1),
            None => None,
        }
    }
}

/// Position of the current value among the choices (the first choice when absent).
pub open spec fn choice_index(choices: Seq<Seq<char>>, current: Seq<char>) -> int {
    match first_index(choices, current) {
        Some(i) => i,
        None => 0,
    }
}

/// The value a toggle of free-form text gives: `true` and `false` swap.
pub open spec fn toggled(current: Seq<char>) -> Option<Seq<char>> {
    if current == "true"@ {
        Some("false"@)
    } else if current == "false"@ {
        Some("true"@)
    } else {
        None
    }
}

/// The value an option moves to when cycled by `delta` from `current`:
/// booleans flip, enumerations step through their choices (wrapping), other
/// text flips only when it is `true` or `false`; `None` asks for free-form input.
pub open spec fn cycle_next(id: SegmentId, k: Seq<char>, current: Seq<char>, delta: int) -> Option<
    Seq<char>,
> {
    let spec = spec_lookup(known_spec(id), k);
    if spec is Some && spec_is_bool(spec->0) {
        Some(
            if current == "true"@ {
                "false"@
            } else {
                "true"@
            },
        )
    } else if spec is Some && spec->0.choices.len() > 0 {
        let choices = spec->0.choices;
        Some(choices[(choice_index(choices, current) + delta) % (choices.len() as int)])
    } else {
        toggled(current)
    }
}

/// Cycling an enumeration computes `position + delta` in `i32`.
pub open spec fn cycle_in_range(id: SegmentId, k: Seq<char>, current: Seq<char>, delta: int) -> bool {
    let spec = spec_lookup(known_spec(id), k);
    (spec is Some && !spec_is_bool(spec->0) && spec->0.choices.len() > 0) ==> choice_index(
        spec->0.choices,
        current,
    ) + delta <= i32::MAX
}

/// Everything but the option table is the same.
pub open spec fn same_but_options(a: &SegmentConfig, b: &SegmentConfig) -> bool {
    &&& a.id == b.id
    &&& a.enabled == b.enabled
    &&& a.icon.plain@ == b.icon.plain@
    &&& a.icon.nerd_font@ == b.icon.nerd_font@
    &&& a.colors.icon == b.colors.icon
    &&& a.colors.text == b.colors.text
    &&& a.colors.background == b.colors.background
    &&& a.styles.text_bold == b.styles.text_bold
}

/// What a cycled value is stored as.
pub open spec fn cycled_value(v: Seq<char>) -> OptionVal {
    parse_base(trimmed(v))->0
}

fn choice_position(choices: &'static [&'static str], current: &str) -> (r: usize)
    ensures
        r == choice_index(choices@.map_values(|c: &str| c@), current@),
{
    let ghost v = choices@.map_values(|c: &str| c@);
    let mut i: usize = 0;
    assert(v.skip(0) =~= v);
    while i < choices.len()
        invariant
            i <= choices@.len(),
            v == choices@.map_values(|c: &str| c@),
            first_index(v, current@) == (match first_index(v.skip(i as int), current@) {
                Some(j) => Some(j + i),
                None => None,
            }),
        decreases choices.len() - i,
    {
        assert(v.skip(i as int).drop_first() =~= v.skip(i + 1));
        if str_eq(choices[i], current) {
            return i;
        }
        i = i + 1;
    }
    0
}

/// Euclidean remainder of `x` by a positive `m`.
fn rem_euclid(x: i32, m: i32) -> (r: i32)
    requires
        m > 0,
    ensures
        r == x as int % m as int,
        0 <= r < m,
{
    if x >= 0 {
        ((x as u32) % (m as u32)) as i32
    } else {
        let a: u64 = (-(x as i64)) as u64;
        let q: u64 = a % (m as u64);
        proof {
            let xi = x as int;
            let mi = m as int;
            let ai = a as int;
            assert(ai == -xi);
            assert(q == ai % mi);
            let d = ai / mi;
            vstd::arithmetic::div_mod::lemma_fundamental_div_mod(ai, mi);
            assert(ai == mi * d + q);
            if q == 0 {
                assert(xi == (-d) * mi + 0) by (nonlinear_arith)
                    requires
                        ai == mi * d + q,
                        q == 0,
                        xi == -ai,
                ;
                vstd::arithmetic::div_mod::lemma_fundamental_div_mod_converse_mod(xi, mi, -d, 0);
            } else {
                assert(xi == (-d - 1) * mi + (mi - q)) by (nonlinear_arith)
                    requires
                        ai == mi * d + q,
                        xi == -ai,
                ;
                vstd::arithmetic::div_mod::lemma_fundamental_div_mod_converse_mod(
                    xi,
                    mi,
                    -d - 1,
                    mi - q,
                );
            }
        }
        if q == 0 {
            0
        } else {
            (m as u64 - q) as i32
        }
    }
}

/// `true`/`false` swapped, else nothing.
fn toggle_text(current: &str) -> (r: Option<String>)
    ensures
        match r {
            Some(t) => toggled(current@) == Some(t@),
            None => toggled(current@) is None,
        },
{
    if str_eq(current, "true") {
        Some(to_string("false"))
    } else if str_eq(current, "false") {
        Some(to_string("true"))
    } else {
        None
    }
}

proof fn lemma_cycled_values_plain(id: SegmentId, k: Seq<char>, current: Seq<char>, delta: int)
    requires
        cycle_next(id, k, current, delta) is Some,
    ensures
        parse_base(trimmed(cycle_next(id, k, current, delta)->0)) is Some,
{
    reveal_strlit("true");
    reveal_strlit("false");
    reveal_strlit("time");
    reveal_strlit("countdown");
    let v = cycle_next(id, k, current, delta)->0;
    assert(v == "true"@ || v == "false"@ || v == "time"@ || v == "countdown"@) by {
        let spec = spec_lookup(known_spec(id), k);
        if spec is Some && !spec_is_bool(spec->0) && spec->0.choices.len() > 0 {
            lemma_spec_lookup_member(known_spec(id), k);
        }
    }
    if v == "true"@ || v == "false"@ {
        lemma_word_untrimmed(v);
    } else {
        lemma_word_untrimmed(v);
        lemma_word_plain(v);
    }
}

proof fn lemma_spec_lookup_member(specs: Seq<OptionSpecView>, k: Seq<char>)
    requires
        spec_lookup(specs, k) is Some,
    ensures
        specs.contains(spec_lookup(specs, k)->0),
    decreases specs.len(),
{
    if specs[0].key != k {
        lemma_spec_lookup_member(specs.drop_first(), k);
        let o = spec_lookup(specs, k)->0;
        let i = choose|i: int| 0 <= i < specs.drop_first().len() && specs.drop_first()[i] == o;
        assert(specs[i + 1] == o);
    } else {
        assert(specs[0] == spec_lookup(specs, k)->0);
    }
}

/// A word with no whitespace at its ends is its own trimming.
proof fn lemma_word_untrimmed(w: Seq<char>)
    requires
        w.len() > 0,
        !crate::text::is_white_space(w[0]),
        !crate::text::is_white_space(w.last()),
    ensures
        trimmed(w) == w,
{
}

/// Text without digits or a leading sign, whose length is not that of
/// `inf`, `infinity` or `nan`, is neither an integer nor float syntax.
proof fn lemma_word_plain(w: Seq<char>)
    requires
        w.len() > 0,
        w.len() != 3 && w.len() != 8,
        w[0] != '+' && w[0] != '-',
        forall|i: int| 0 <= i < w.len() ==> !crate::text::is_digit(#[trigger] w[i]),
        w != "true"@ && w != "false"@,
    ensures
        parse_base(w) == Some(OptionVal::Str(w)),
{
    assert(!crate::text::is_digit(w[0]));
    assert(!crate::text::all_digits(w));
    assert(crate::text::strip_sign(w) == w);
    assert(!crate::text::number_syntax(w)) by {
        if crate::text::number_syntax(w) {
            let k = choose|k: int|
                0 <= k <= w.len() && crate::text::mantissa_syntax(w.take(k))
                    && crate::text::exponent_syntax(w.skip(k));
            let i = choose|i: int| 0 <= i < w.take(k).len() && crate::text::is_digit(#[trigger] w.take(k)[i]);
            assert(w.take(k)[i] == w[i]);
        }
    }
    assert(ascii_lowercase(w).len() == w.len());
}


/// Toggle a bool, advance an enumeration (`delta` = +1 next / -1 previous),
/// or ask for free-form input.
pub fn cycle_option(segment: &mut SegmentConfig, key: &str, delta: i32) -> (r: OptionEdit)
    requires
        cycle_in_range(old(segment).id, key@, current_text(old(segment), key@), delta as int),
    ensures
        same_but_options(final(segment), old(segment)),
        match cycle_next(
            old(segment).id,
            key@,
            current_text(old(segment), key@),
            delta as int,
        ) {
            Some(v) => r matches OptionEdit::Cycled(t) && t@ == v && final(segment).options@ == old(
                segment,
            ).options@.insert(key@, cycled_value(v)),
            None => r matches OptionEdit::Prompt(t) && t@ == current_text(old(segment), key@)
                && final(segment).options@ == old(segment).options@,
        },
{
    let (current, _) = current_value(segment, key);
    let ghost cur = current@;
    let spec = find_spec(known_options(segment.id), key);
    let next: Option<String> = match spec {
        Some(o) => {
            if o.is_bool() {
                if str_eq(current.as_str(), "true") {
                    Some(to_string("false"))
                } else {
                    Some(to_string("true"))
                }
            } else if o.choices.len() > 0 {
                proof {
                    assert(spec_lookup(known_spec(segment.id), key@) == Some(o@));
                    lemma_spec_lookup_member(known_spec(segment.id), key@);
                    lemma_known_choices_small(segment.id, o@);
                    assert(o@.choices.len() == o.choices@.len());
                }
                let len = o.choices.len() as i32;
                let idx = choice_position(o.choices, current.as_str()) as i32;
                proof {
                    let v = o.choices@.map_values(|c: &str| c@);
                    assert(v.len() == o.choices@.len());
                    lemma_choice_index_bound(v, cur);
                }
                let m = rem_euclid(idx + delta, len);
                let value = to_string(o.choices[m as usize]);
                assert(value@ == o@.choices[m as int]);
                Some(value)
            } else {
                toggle_text(current.as_str())
            }
        },
        None => toggle_text(current.as_str()),
    };
    match next {
        Some(value) => {
            proof {
                lemma_cycled_values_plain(segment.id, key@, cur, delta as int);
            }
            let stored = match parse_plain(trim(value.as_str())) {
                Some(v) => v,
                None => OptionValue::Str(to_string(value.as_str())),
            };
            segment.options.insert(to_string(key), stored);
            OptionEdit::Cycled(value)
        },
        None => OptionEdit::Prompt(current),
    }
}

proof fn lemma_known_choices_small(id: SegmentId, o: OptionSpecView)
    requires
        known_spec(id).contains(o),
    ensures
        o.choices.len() <= 2,
{
    let i = choose|i: int| 0 <= i < known_spec(id).len() && known_spec(id)[i] == o;
}

proof fn lemma_choice_index_bound(v: Seq<Seq<char>>, x: Seq<char>)
    requires
        v.len() > 0,
    ensures
        0 <= choice_index(v, x) < v.len(),
{
    lemma_first_index_bound(v, x);
}

proof fn lemma_first_index_bound(v: Seq<Seq<char>>, x: Seq<char>)
    ensures
        first_index(v, x) matches Some(i) ==> 0 <= i < v.len() && v[i] == x,
    decreases v.len(),
{
    if v.len() > 0 && v[0] != x {
        lemma_first_index_bound(v.drop_first(), x);
    }
}


/// Position of the first `c` in `s`.
pub open spec fn char_index(s: Seq<char>, c: char) -> Option<int>
    decreases s.len(),
{
    if s.len() == 0 {
        None
    } else if s[0] == c {
        Some(0)
    } else {
        match char_index(s.drop_first(), c) {
            Some(i) => Some(i + 1),
            None => None,
        }
    }
}

proof fn lemma_char_index(s: Seq<char>, c: char)
    ensures
        char_index(s, c) matches Some(i) ==> 0 <= i < s.len() && s[i] == c,
    decreases s.len(),
{
    if s.len() > 0 && s[0] != c {
        lemma_char_index(s.drop_first(), c);
    }
}

/// Character position of the first `c` in `cs`.
fn find_char(cs: &Vec<char>, c: char) -> (r: Option<usize>)
    ensures
        match r {
            Some(i) => char_index(cs@, c) == Some(i as int),
            None => char_index(cs@, c) is None,
        },
{
    let mut i: usize = 0;
    assert(cs@.skip(0) =~= cs@);
    while i < cs.len()
        invariant
            i <= cs@.len(),
            char_index(cs@, c) == (match char_index(cs@.skip(i as int), c) {
                Some(j) => Some(j + i),
                None => None,
            }),
        decreases cs.len() - i,
    {
        assert(cs@.skip(i as int).drop_first() =~= cs@.skip(i + 1));
        if cs[i] == c {
            return Some(i);
        }
        i = i + 1;
    }
    None
}

/// The segment ids in display order.
pub open spec fn all_segments() -> Seq<SegmentId> {
    seq![
        SegmentId::Model,
        SegmentId::Directory,
        SegmentId::Git,
        SegmentId::ContextWindow,
        SegmentId::Usage,
        SegmentId::Credits,
        SegmentId::Cost,
        SegmentId::Session,
        SegmentId::OutputStyle,
        SegmentId::Update,
    ]
}

/// Segment names joined by `", "`.
pub open spec fn names_joined(ids: Seq<SegmentId>) -> Seq<char>
    decreases ids.len(),
{
    if ids.len() == 0 {
        Seq::empty()
    } else if ids.len() == 1 {
        segment_name_text(ids[0])
    } else {
        names_joined(ids.drop_last()) + ", "@ + segment_name_text(ids.last())
    }
}

/// `"model, directory, ..."`: every segment name, for error messages.
fn all_segment_names() -> (r: String)
    ensures
        r@ == names_joined(all_segments()),
{
    let mut out = String::new();
    let mut i: usize = 0;
    assert(ALL_SEGMENTS@ == all_segments());
    while i < 10
        invariant
            i <= 10,
            ALL_SEGMENTS@ == all_segments(),
            out@ == names_joined(all_segments().take(i as int)),
        decreases 10 - i,
    {
        let ghost prev = out@;
        if i > 0 {
            crate::text::push_str(&mut out, ", ");
        }
        let name = segment_name(ALL_SEGMENTS[i]);
        crate::text::push_str(&mut out, name.as_str());
        proof {
            let t = all_segments().take(i + 1);
            assert(t.drop_last() =~= all_segments().take(i as int));
            assert(t.last() == ALL_SEGMENTS@[i as int]);
            if i == 0 {
                assert(names_joined(all_segments().take(0)) == Seq::<char>::empty());
                assert(out@ =~= names_joined(t));
            } else {
                assert(out@ =~= names_joined(t));
            }
        }
        i = i + 1;
    }
    assert(all_segments().take(10) =~= all_segments());
    out
}

/// The segment part of a `SEGMENT.KEY` target: what comes before the first `.`.
pub open spec fn target_segment(t: Seq<char>) -> Seq<char> {
    match char_index(t, '.') {
        Some(i) => t.take(i),
        None => t,
    }
}

/// How `SEGMENT.KEY` is read, given the segment that the part before the first
/// `.` names: the trimmed key after it; each failure has its message.
pub open spec fn split_target_named(t: Seq<char>, named: Option<SegmentId>) -> Result<
    (SegmentId, Seq<char>),
    Seq<char>,
> {
    match char_index(t, '.') {
        None => Err("expected SEGMENT.KEY, got \""@ + t + "\""@),
        Some(i) => {
            let segment = t.take(i);
            let key = t.skip(i + 1);
            match named {
                None => Err(
                    "unknown segment \""@ + segment + "\" (expected one of: "@ + names_joined(
                        all_segments(),
                    ) + ")"@,
                ),
                Some(id) => if trimmed(key).len() == 0 {
                    Err("missing option key in \""@ + t + "\""@)
                } else {
                    Ok((id, trimmed(key)))
                },
            }
        },
    }
}

/// How `SEGMENT.KEY` is read: the segment name is trimmed and lowercased.
pub open spec fn split_target_spec(t: Seq<char>) -> Result<(SegmentId, Seq<char>), Seq<char>> {
    split_target_named(t, segment_named(unicode_lowercase(trimmed(target_segment(t)))))
}

/// The same reading with ASCII lowercasing, which it agrees with on an ASCII segment name.
pub open spec fn split_target_ascii(t: Seq<char>) -> Result<(SegmentId, Seq<char>), Seq<char>> {
    split_target_named(t, segment_named(ascii_lowercase(trimmed(target_segment(t)))))
}

/// Text made of three parts.
fn concat3(a: &str, b: &str, c: &str) -> (r: String)
    ensures
        r@ == a@ + b@ + c@,
{
    let mut out = to_string(a);
    crate::text::push_str(&mut out, b);
    crate::text::push_str(&mut out, c);
    out
}

/// Parse "segment.key" into its parts.
pub fn split_target(target: &str) -> (r: Result<(SegmentId, String), String>)
    ensures
        match (r, split_target_spec(target@)) {
            (Ok((id, key)), Ok((sid, skey))) => id == sid && key@ == skey,
            (Err(e), Err(se)) => e@ == se,
            _ => false,
        },
        all_ascii(trimmed(target_segment(target@))) ==> split_target_spec(target@)
            == split_target_ascii(target@),
{
    let cs = crate::text::chars_of(target);
    match find_char(&cs, '.') {
        None => Err(concat3("expected SEGMENT.KEY, got \"", target, "\"")),
        Some(i) => {
            proof {
                lemma_char_index(cs@, '.');
            }
            assert(i < cs.len());
            let segment = target.substring_char(0, i);
            let key_part = target.substring_char(i + 1, cs.len());
            assert(segment@ =~= target@.take(i as int));
            assert(key_part@ =~= target@.skip(i + 1));
            match parse_segment_id(segment) {
                None => {
                    let mut msg = concat3("unknown segment \"", segment, "\" (expected one of: ");
                    let names = all_segment_names();
                    crate::text::push_str(&mut msg, names.as_str());
                    crate::text::push_str(&mut msg, ")");
                    Err(msg)
                },
                Some(id) => {
                    let key = trim(key_part);
                    if key.unicode_len() == 0 {
                        Err(concat3("missing option key in \"", target, "\""))
                    } else {
                        Ok((id, to_string(key)))
                    }
                },
            }
        },
    }
}


/// Index of the first segment with id `id`.
pub open spec fn segment_index(segments: Seq<SegmentConfig>, id: SegmentId) -> Option<int>
    decreases segments.len(),
{
    if segments.len() == 0 {
        None
    } else if segments[0].id == id {
        Some(0)
    } else {
        match segment_index(segments.drop_first(), id) {
            Some(i) => Some(i + 1),
            None => None,
        }
    }
}

pub proof fn lemma_segment_index_at(segments: Seq<SegmentConfig>, id: SegmentId)
    ensures
        segment_index(segments, id) matches Some(i) ==> 0 <= i < segments.len() && segments[i].id
            == id,
{
    lemma_segment_index(segments, id);
}

proof fn lemma_segment_index(segments: Seq<SegmentConfig>, id: SegmentId)
    ensures
        segment_index(segments, id) matches Some(i) ==> 0 <= i < segments.len() && segments[i].id
            == id,
    decreases segments.len(),
{
    if segments.len() > 0 && segments[0].id != id {
        lemma_segment_index(segments.drop_first(), id);
    }
}

/// Position of the first segment with id `id`.
pub fn find_segment(segments: &Vec<SegmentConfig>, id: SegmentId) -> (r: Option<usize>)
    ensures
        match r {
            Some(i) => segment_index(segments@, id) == Some(i as int),
            None => segment_index(segments@, id) is None,
        },
{
    let mut i: usize = 0;
    assert(segments@.skip(0) =~= segments@);
    while i < segments.len()
        invariant
            i <= segments@.len(),
            segment_index(segments@, id) == (match segment_index(segments@.skip(i as int), id) {
                Some(j) => Some(j + i),
                None => None,
            }),
        decreases segments.len() - i,
    {
        assert(segments@.skip(i as int).drop_first() =~= segments@.skip(i + 1));
        if segments[i].id == id {
            return Some(i);
        }
        i = i + 1;
    }
    None
}

/// Text after a stored value in the `--set` summary.
pub open spec fn unknown_warning(id: SegmentId, key: Seq<char>) -> Seq<char> {
    if is_known_key(id, key) {
        Seq::empty()
    } else {
        " (warning: not a known option for this segment)"@
    }
}

/// The value `parse_value` may give for `raw` with float reading `read_float`.
pub open spec fn parsed_as<F: Fn(&str) -> OptionValue>(raw: Seq<char>, read_float: &F, v: OptionValue) -> bool {
    match parse_base(trimmed(raw)) {
        Some(b) => v@ == b,
        None => exists|s: &str| s@ == trimmed(raw) && read_float.ensures((s,), v),
    }
}

/// Only segment `j`'s option table changed, to `options`.
pub open spec fn options_replaced(
    before: &Config,
    after: &Config,
    j: int,
    options: Map<Seq<char>, OptionVal>,
) -> bool {
    &&& after.style == before.style
    &&& after.theme == before.theme
    &&& after.segments@.len() == before.segments@.len()
    &&& forall|q: int| 0 <= q < before.segments@.len() && q != j ==> after.segments@[q] == before.segments@[q]
    &&& same_but_options(&after.segments@[j], &before.segments@[j])
    &&& after.segments@[j].options@ == options
}

/// Apply `SEGMENT.KEY=VALUE`. Returns a human-readable summary of the change.
pub fn set_option<F: Fn(&str) -> OptionValue>(config: &mut Config, assignment: &str, read_float: &F) -> (r: Result<String, String>)
    requires
        forall|s: &str| read_float.requires((s,)),
    ensures
        match char_index(assignment@, '=') {
            None => r matches Err(e) && e@ == "expected SEGMENT.KEY=VALUE, got \""@ + assignment@ + "\""@
                && *final(config) == *old(config),
            Some(i) => match split_target_spec(assignment@.take(i)) {
                Err(se) => r matches Err(e) && e@ == se && *final(config) == *old(config),
                Ok((id, key)) => match segment_index(old(config).segments@, id) {
                    None => r matches Err(e) && e@ == "segment \""@ + segment_name_text(id)
                        + "\" is not in the config"@ && *final(config) == *old(config),
                    Some(j) => exists|v: OptionValue|
                        {
                            &&& parsed_as(assignment@.skip(i + 1), read_float, v)
                            &&& options_replaced(
                                old(config),
                                final(config),
                                j,
                                old(config).segments@[j].options@.insert(key, v@),
                            )
                            &&& r matches Ok(msg) && msg@ == segment_name_text(id) + "."@ + key
                                + " = "@ + display_text(v@) + unknown_warning(id, key)
                        },
                },
            },
        },
        match char_index(assignment@, '=') {
            Some(i) => all_ascii(trimmed(target_segment(assignment@.take(i)))) ==> split_target_spec(
                assignment@.take(i),
            ) == split_target_ascii(assignment@.take(i)),
            None => true,
        },
{
    let cs = crate::text::chars_of(assignment);
    let found = find_char(&cs, '=');
    proof {
        lemma_char_index(cs@, '=');
    }
    let eq = match found {
        Some(i) => i,
        None => {
            return Err(concat3("expected SEGMENT.KEY=VALUE, got \"", assignment, "\""));
        },
    };
    let n = cs.len();
    assert(eq < n);
    let target = assignment.substring_char(0, eq);
    let raw_value = assignment.substring_char(eq + 1, n);
    assert(target@ =~= assignment@.take(eq as int));
    assert(raw_value@ =~= assignment@.skip(eq + 1));
    let (id, key) = match split_target(target) {
        Ok(parts) => parts,
        Err(e) => {
            return Err(e);
        },
    };
    let value = parse_value(raw_value, read_float);
    let j = match find_segment(&config.segments, id) {
        Some(j) => j,
        None => {
            let name = segment_name(id);
            return Err(concat3("segment \"", name.as_str(), "\" is not in the config"));
        },
    };
    proof {
        lemma_segment_index(config.segments@, id);
    }
    let known = match find_spec(known_options(id), key.as_str()) {
        Some(_) => true,
        None => false,
    };
    let name = segment_name(id);
    let mut msg = concat3(name.as_str(), ".", key.as_str());
    crate::text::push_str(&mut msg, " = ");
    let shown = display_value(&value);
    crate::text::push_str(&mut msg, shown.as_str());
    if !known {
        crate::text::push_str(&mut msg, " (warning: not a known option for this segment)");
    }
    let ghost v = value;
    let ghost new_options = config.segments@[j as int].options@.insert(key@, value@);
    let mut segments: Vec<SegmentConfig> = Vec::new();
    std::mem::swap(&mut segments, &mut config.segments);
    let ghost before = segments@;
    let mut segment = segments.remove(j);
    segment.options.insert(key, value);
    segments.insert(j, segment);
    assert(forall|q: int| 0 <= q < before.len() && q != j ==> segments@[q] == before[q]);
    config.segments = segments;
    assert(msg@ =~= segment_name_text(id) + "."@ + key@ + " = "@ + display_text(v@) + unknown_warning(
        id,
        key@,
    ));
    Ok(msg)
}

/// Remove `SEGMENT.KEY` so the segment falls back to its default.
pub fn unset_option(config: &mut Config, target: &str) -> (r: Result<String, String>)
    ensures
        match split_target_spec(target@) {
            Err(se) => r matches Err(e) && e@ == se && *final(config) == *old(config),
            Ok((id, key)) => match segment_index(old(config).segments@, id) {
                None => r matches Err(e) && e@ == "segment \""@ + segment_name_text(id)
                    + "\" is not in the config"@ && *final(config) == *old(config),
                Some(j) => {
                    &&& options_replaced(
                        old(config),
                        final(config),
                        j,
                        old(config).segments@[j].options@.remove(key),
                    )
                    &&& r matches Ok(msg) && msg@ == segment_name_text(id) + "."@ + key + (
                    if old(config).segments@[j].options@.contains_key(key) {
                        " reset to default"@
                    } else {
                        " was not set"@
                    })
                },
            },
        },
        all_ascii(trimmed(target_segment(target@))) ==> split_target_spec(target@)
            == split_target_ascii(target@),
{
    let (id, key) = match split_target(target) {
        Ok(parts) => parts,
        Err(e) => {
            return Err(e);
        },
    };
    let j = match find_segment(&config.segments, id) {
        Some(j) => j,
        None => {
            let name = segment_name(id);
            return Err(concat3("segment \"", name.as_str(), "\" is not in the config"));
        },
    };
    proof {
        lemma_segment_index(config.segments@, id);
    }
    let name = segment_name(id);
    let mut segments: Vec<SegmentConfig> = Vec::new();
    std::mem::swap(&mut segments, &mut config.segments);
    let ghost before = segments@;
    let mut segment = segments.remove(j);
    let removed = segment.options.remove(key.as_str());
    segments.insert(j, segment);
    assert(forall|q: int| 0 <= q < before.len() && q != j ==> segments@[q] == before[q]);
    config.segments = segments;
    let mut msg = concat3(name.as_str(), ".", key.as_str());
    match removed {
        Some(_) => crate::text::push_str(&mut msg, " reset to default"),
        None => crate::text::push_str(&mut msg, " was not set"),
    }
    Ok(msg)
}


/// The value stored for option `k` of segment `id` in `config`, if any.
pub open spec fn stored_value(config: &Config, id: SegmentId, k: Seq<char>) -> Option<OptionVal> {
    match segment_index(config.segments@, id) {
        Some(j) => if config.segments@[j].options@.contains_key(k) {
            Some(config.segments@[j].options@[k])
        } else {
            None
        },
        None => None,
    }
}

/// The listing line of a known option.
pub open spec fn known_line(config: &Config, id: SegmentId, o: OptionSpecView) -> Seq<char> {
    let value = match stored_value(config, id, o.key) {
        Some(v) => display_text(v) + " (default: "@ + o.default + ")"@,
        None => o.default + " (default)"@,
    };
    "  "@ + crate::text::pad_right(o.key, 16) + " "@ + crate::text::pad_right(value, 40) + " "@
        + o.description + "\n"@
}

/// The listing lines of the known options `specs`.
pub open spec fn known_lines(config: &Config, id: SegmentId, specs: Seq<OptionSpecView>) -> Seq<char>
    decreases specs.len(),
{
    if specs.len() == 0 {
        Seq::empty()
    } else {
        known_lines(config, id, specs.drop_last()) + known_line(config, id, specs.last())
    }
}

/// The listing lines of the custom options among `pairs`, in table order.
pub open spec fn custom_lines(id: SegmentId, pairs: Seq<(Seq<char>, OptionVal)>) -> Seq<char>
    decreases pairs.len(),
{
    if pairs.len() == 0 {
        Seq::empty()
    } else {
        let p = pairs.last();
        custom_lines(id, pairs.drop_last()) + if is_known_key(id, p.0) {
            Seq::empty()
        } else {
            "  "@ + crate::text::pad_right(p.0, 16) + " "@ + crate::text::pad_right(
                display_text(p.1),
                40,
            ) + " (custom)\n"@
        }
    }
}

/// The block listing one segment's options; empty when it has none to show.
pub open spec fn segment_block(config: &Config, id: SegmentId) -> Seq<char> {
    let specs = known_spec(id);
    let custom = match segment_index(config.segments@, id) {
        Some(j) => custom_lines(id, config.segments@[j].options.pairs()),
        None => Seq::empty(),
    };
    let state = match segment_index(config.segments@, id) {
        Some(j) => if config.segments@[j].enabled {
            "enabled"@
        } else {
            "disabled"@
        },
        None => "not in config"@,
    };
    if specs.len() == 0 && custom.len() == 0 {
        Seq::empty()
    } else {
        "["@ + segment_name_text(id) + "] ("@ + state + ")\n"@ + known_lines(config, id, specs)
            + custom
    }
}

/// The blocks of segments `ids`, in order.
pub open spec fn segment_blocks(config: &Config, ids: Seq<SegmentId>) -> Seq<char>
    decreases ids.len(),
{
    if ids.len() == 0 {
        Seq::empty()
    } else {
        segment_blocks(config, ids.drop_last()) + segment_block(config, ids.last())
    }
}

/// The whole option listing.
pub open spec fn render_options_text(config: &Config) -> Seq<char> {
    segment_blocks(config, all_segments())
        + "\nChange with: ccline --set SEGMENT.KEY=VALUE   (e.g. --set usage.reset_format=countdown)\n"@
        + "Reset with:  ccline --unset SEGMENT.KEY\n"@
}

fn push_known_line(out: &mut String, config: &Config, id: SegmentId, spec: &OptionSpec)
    ensures
        final(out)@ == old(out)@ + known_line(config, id, spec@),
{
    let j = find_segment(&config.segments, id);
    let current: Option<&OptionValue> = match j {
        Some(j) => {
            proof {
                lemma_segment_index(config.segments@, id);
            }
            config.segments[j].options.get(spec.key)
        },
        None => None,
    };
    let mut value = String::new();
    match current {
        Some(v) => {
            let shown = display_value(v);
            crate::text::push_str(&mut value, shown.as_str());
            crate::text::push_str(&mut value, " (default: ");
            crate::text::push_str(&mut value, spec.default);
            crate::text::push_str(&mut value, ")");
        },
        None => {
            crate::text::push_str(&mut value, spec.default);
            crate::text::push_str(&mut value, " (default)");
        },
    }
    crate::text::push_str(out, "  ");
    crate::text::push_padded(out, spec.key, 16);
    crate::text::push_str(out, " ");
    crate::text::push_padded(out, value.as_str(), 40);
    crate::text::push_str(out, " ");
    crate::text::push_str(out, spec.description);
    crate::text::push_str(out, "\n");
    assert(final(out)@ =~= old(out)@ + known_line(config, id, spec@));
}

fn push_custom_lines(out: &mut String, id: SegmentId, options: &OptionMap)
    ensures
        final(out)@ == old(out)@ + custom_lines(id, options.pairs()),
{
    let specs = known_options(id);
    let n = options.len();
    let mut j: usize = 0;
    assert(options.pairs().take(0) =~= Seq::<(Seq<char>, OptionVal)>::empty());
    while j < n
        invariant
            j <= n,
            n == options.pairs().len(),
            specs@.map_values(|o: OptionSpec| o@) == known_spec(id),
            out@ == old(out)@ + custom_lines(id, options.pairs().take(j as int)),
        decreases n - j,
    {
        let (k, v) = options.entry(j);
        let ghost prev = out@;
        if find_spec(specs, k.as_str()).is_none() {
            crate::text::push_str(out, "  ");
            crate::text::push_padded(out, k.as_str(), 16);
            crate::text::push_str(out, " ");
            let shown = display_value(v);
            crate::text::push_padded(out, shown.as_str(), 40);
            crate::text::push_str(out, " (custom)\n");
        }
        proof {
            let t = options.pairs().take(j + 1);
            assert(t.drop_last() =~= options.pairs().take(j as int));
            assert(t.last() == options.pairs()[j as int]);
        }
        assert(out@ =~= old(out)@ + custom_lines(id, options.pairs().take(j + 1)));
        j = j + 1;
    }
    assert(options.pairs().take(n as int) =~= options.pairs());
}

fn push_segment_block(out: &mut String, config: &Config, id: SegmentId)
    ensures
        final(out)@ == old(out)@ + segment_block(config, id),
{
    let specs = known_options(id);
    let j = find_segment(&config.segments, id);
    proof {
        lemma_segment_index(config.segments@, id);
    }
    let mut lines = String::new();
    let mut i: usize = 0;
    assert(known_spec(id).take(0) =~= Seq::<OptionSpecView>::empty());
    while i < specs.len()
        invariant
            i <= specs@.len(),
            specs@.map_values(|o: OptionSpec| o@) == known_spec(id),
            lines@ == known_lines(config, id, known_spec(id).take(i as int)),
        decreases specs.len() - i,
    {
        push_known_line(&mut lines, config, id, &specs[i]);
        proof {
            let t = known_spec(id).take(i + 1);
            assert(t.drop_last() =~= known_spec(id).take(i as int));
            assert(t.last() == specs@[i as int]@);
        }
        i = i + 1;
    }
    assert(known_spec(id).take(specs@.len() as int) =~= known_spec(id));
    let mut custom = String::new();
    match j {
        Some(j) => push_custom_lines(&mut custom, id, &config.segments[j].options),
        None => {},
    }
    assert(custom@ =~= match segment_index(config.segments@, id) {
        Some(j) => custom_lines(id, config.segments@[j].options.pairs()),
        None => Seq::empty(),
    });
    if specs.len() == 0 && custom.unicode_len() == 0 {
        assert(segment_block(config, id) =~= Seq::<char>::empty());
        assert(final(out)@ =~= old(out)@ + segment_block(config, id));
        return ;
    }
    let state = match j {
        Some(j) => if config.segments[j].enabled {
            "enabled"
        } else {
            "disabled"
        },
        None => "not in config",
    };
    let name = segment_name(id);
    crate::text::push_str(out, "[");
    crate::text::push_str(out, name.as_str());
    crate::text::push_str(out, "] (");
    crate::text::push_str(out, state);
    crate::text::push_str(out, ")\n");
    crate::text::push_str(out, lines.as_str());
    crate::text::push_str(out, custom.as_str());
    assert(final(out)@ =~= old(out)@ + segment_block(config, id));
}

/// Human-readable listing of every option, with current and default values.
pub fn render_options(config: &Config) -> (r: String)
    ensures
        r@ == render_options_text(config),
{
    let mut out = String::new();
    let mut i: usize = 0;
    assert(all_segments().take(0) =~= Seq::<SegmentId>::empty());
    while i < 10
        invariant
            i <= 10,
            ALL_SEGMENTS@ == all_segments(),
            out@ == segment_blocks(config, all_segments().take(i as int)),
        decreases 10 - i,
    {
        push_segment_block(&mut out, config, ALL_SEGMENTS[i]);
        proof {
            let t = all_segments().take(i + 1);
            assert(t.drop_last() =~= all_segments().take(i as int));
            assert(t.last() == ALL_SEGMENTS@[i as int]);
        }
        i = i + 1;
    }
    assert(all_segments().take(10) =~= all_segments());
    crate::text::push_str(
        &mut out,
        "\nChange with: ccline --set SEGMENT.KEY=VALUE   (e.g. --set usage.reset_format=countdown)\n",
    );
    crate::text::push_str(&mut out, "Reset with:  ccline --unset SEGMENT.KEY\n");
    out
}


/// After `set_option` stores `v` under `key` in segment `j`, the option reads
/// back as `v`, not as its default.
pub proof fn law_set_then_read(before: &Config, after: &Config, j: int, key: Seq<char>, v: OptionVal)
    requires
        0 <= j < before.segments@.len(),
        options_replaced(before, after, j, before.segments@[j].options@.insert(key, v)),
    ensures
        current_text(&after.segments@[j], key) == display_text(v),
        after.segments@[j].options@.contains_key(key),
{
}

/// After `unset_option` removes `key` from segment `j`, the option reads as its default.
pub proof fn law_unset_then_default(before: &Config, after: &Config, j: int, key: Seq<char>)
    requires
        0 <= j < before.segments@.len(),
        options_replaced(before, after, j, before.segments@[j].options@.remove(key)),
    ensures
        current_text(&after.segments@[j], key) == default_text(after.segments@[j].id, key),
        !after.segments@[j].options@.contains_key(key),
{
}

/// The same configuration, field by field, option tables compared as tables.
pub open spec fn config_same(a: &Config, b: &Config) -> bool {
    &&& a.style == b.style
    &&& a.theme == b.theme
    &&& a.segments@.len() == b.segments@.len()
    &&& forall|q: int|
        0 <= q < a.segments@.len() ==> same_but_options(&#[trigger] a.segments@[q], &b.segments@[q])
            && a.segments@[q].options@ == b.segments@[q].options@
}

/// The first `c` of `t + s` is that of `s`, moved on by `t`'s length, when `t` holds no `c`.
proof fn lemma_char_index_after(t: Seq<char>, s: Seq<char>, c: char)
    requires
        !t.contains(c),
    ensures
        char_index(t + s, c) == (match char_index(s, c) {
            Some(i) => Some(i + t.len()),
            None => None,
        }),
    decreases t.len(),
{
    if t.len() > 0 {
        assert(t[0] != c);
        assert((t + s).drop_first() =~= t.drop_first() + s);
        assert forall|i: int| 0 <= i < t.drop_first().len() implies t.drop_first()[i] != c by {
            assert(t.drop_first()[i] == t[i + 1]);
        }
        lemma_char_index_after(t.drop_first(), s, c);
    } else {
        assert(t + s =~= s);
    }
}

/// Segment lookup by id sees only the ids.
proof fn lemma_segment_index_same_ids(a: Seq<SegmentConfig>, b: Seq<SegmentConfig>, id: SegmentId)
    requires
        a.len() == b.len(),
        forall|q: int| 0 <= q < a.len() ==> #[trigger] a[q].id == b[q].id,
    ensures
        segment_index(a, id) == segment_index(b, id),
    decreases a.len(),
{
    if a.len() > 0 {
        assert(a[0].id == b[0].id);
        assert forall|q: int| 0 <= q < a.drop_first().len() implies #[trigger] a.drop_first()[q].id
            == b.drop_first()[q].id by {
            assert(a[q + 1].id == b[q + 1].id);
        }
        lemma_segment_index_same_ids(a.drop_first(), b.drop_first(), id);
    }
}

/// `--set SEGMENT.KEY=VALUE` on a key that was not set, then `--unset
/// SEGMENT.KEY`, gives the configuration back. The assignment is split at the
/// target when the target holds no `=`; the unset finds the same segment, and
/// reports "reset to default" since the key is set; afterwards the key is
/// absent again, so a second unset reports "was not set" and changes nothing.
pub proof fn law_unset_after_set(
    c0: &Config,
    c1: &Config,
    c2: &Config,
    t: Seq<char>,
    raw: Seq<char>,
    id: SegmentId,
    key: Seq<char>,
    j: int,
    v: OptionVal,
)
    requires
        !t.contains('='),
        split_target_spec(t) == Ok::<(SegmentId, Seq<char>), Seq<char>>((id, key)),
        segment_index(c0.segments@, id) == Some(j),
        !c0.segments@[j].options@.contains_key(key),
        options_replaced(c0, c1, j, c0.segments@[j].options@.insert(key, v)),
        options_replaced(c1, c2, j, c1.segments@[j].options@.remove(key)),
    ensures
        char_index(t + "="@ + raw, '=') == Some(t.len() as int),
        (t + "="@ + raw).take(t.len() as int) == t,
        segment_index(c1.segments@, id) == Some(j),
        c1.segments@[j].options@.contains_key(key),
        config_same(c2, c0),
        segment_index(c2.segments@, id) == Some(j),
        !c2.segments@[j].options@.contains_key(key),
        c2.segments@[j].options@.remove(key) == c2.segments@[j].options@,
{
    reveal_strlit("=");
    let a = t + "="@ + raw;
    assert(a =~= t + ("="@ + raw));
    lemma_char_index_after(t, "="@ + raw, '=');
    assert(("="@ + raw)[0] == '=');
    assert(char_index("="@ + raw, '=') == Some(0int));
    assert(a.take(t.len() as int) =~= t);
    lemma_segment_index_at(c0.segments@, id);
    assert forall|q: int| 0 <= q < c0.segments@.len() implies #[trigger] c0.segments@[q].id
        == c1.segments@[q].id by {
        if q != j {
            assert(c1.segments@[q] == c0.segments@[q]);
        }
    }
    lemma_segment_index_same_ids(c0.segments@, c1.segments@, id);
    assert forall|q: int| 0 <= q < c1.segments@.len() implies #[trigger] c1.segments@[q].id
        == c2.segments@[q].id by {
        if q != j {
            assert(c2.segments@[q] == c1.segments@[q]);
        }
    }
    lemma_segment_index_same_ids(c1.segments@, c2.segments@, id);
    let m0 = c0.segments@[j].options@;
    assert(m0.insert(key, v).remove(key) =~= m0);
    assert(c2.segments@[j].options@.remove(key) =~= c2.segments@[j].options@);
    assert forall|q: int| 0 <= q < c2.segments@.len() implies same_but_options(
        &#[trigger] c2.segments@[q],
        &c0.segments@[q],
    ) && c2.segments@[q].options@ == c0.segments@[q].options@ by {
        if q != j {
            assert(c2.segments@[q] == c1.segments@[q]);
            assert(c1.segments@[q] == c0.segments@[q]);
        }
    }
}

/// The text a cycled value is stored as reads back as that text.
proof fn lemma_cycled_value_display(id: SegmentId, k: Seq<char>, current: Seq<char>, delta: int)
    requires
        cycle_next(id, k, current, delta) is Some,
    ensures
        display_text(cycled_value(cycle_next(id, k, current, delta)->0)) == cycle_next(
            id,
            k,
            current,
            delta,
        )->0,
{
    reveal_strlit("true");
    reveal_strlit("false");
    reveal_strlit("time");
    reveal_strlit("countdown");
    lemma_cycled_values_plain(id, k, current, delta);
    let v = cycle_next(id, k, current, delta)->0;
    lemma_cycled_words(id, k, current, delta);
    if v == "true"@ || v == "false"@ {
        lemma_word_untrimmed(v);
        assert(display_text(cycled_value(v)) =~= v);
    } else {
        lemma_word_untrimmed(v);
        lemma_word_plain(v);
    }
}

proof fn lemma_cycled_words(id: SegmentId, k: Seq<char>, current: Seq<char>, delta: int)
    requires
        cycle_next(id, k, current, delta) is Some,
    ensures
        ({
            let v = cycle_next(id, k, current, delta)->0;
            v == "true"@ || v == "false"@ || v == "time"@ || v == "countdown"@
        }),
{
    let spec = spec_lookup(known_spec(id), k);
    if spec is Some && !spec_is_bool(spec->0) && spec->0.choices.len() > 0 {
        lemma_spec_lookup_member(known_spec(id), k);
    }
}

/// After `cycle_option` switches an option in place, it reads back as the
/// value the edit reported.
pub proof fn law_cycle_reads_back(
    before: &SegmentConfig,
    after: &SegmentConfig,
    key: Seq<char>,
    delta: int,
)
    requires
        cycle_next(before.id, key, current_text(before, key), delta) is Some,
        same_but_options(after, before),
        after.options@ == before.options@.insert(
            key,
            cycled_value(cycle_next(before.id, key, current_text(before, key), delta)->0),
        ),
    ensures
        current_text(after, key) == cycle_next(before.id, key, current_text(before, key), delta)->0,
{
    lemma_cycled_value_display(before.id, key, current_text(before, key), delta);
}

/// Cycling a boolean option twice gives back the value it started from.
pub proof fn law_bool_cycle_twice(id: SegmentId, key: Seq<char>, current: Seq<char>, d1: int, d2: int)
    requires
        spec_lookup(known_spec(id), key) matches Some(o) && spec_is_bool(o),
        current == "true"@ || current == "false"@,
    ensures
        cycle_next(id, key, current, d1) is Some,
        cycle_next(id, key, cycle_next(id, key, current, d1)->0, d2) == Some(current),
{
    reveal_strlit("true");
    reveal_strlit("false");
}

proof fn lemma_first_index_distinct(v: Seq<Seq<char>>, m: int)
    requires
        0 <= m < v.len(),
        forall|a: int, b: int| 0 <= a < b < v.len() ==> v[a] != v[b],
    ensures
        first_index(v, v[m]) == Some(m),
    decreases v.len(),
{
    if m > 0 {
        let w = v.drop_first();
        assert(v[0] != v[m]);
        assert(w[m - 1] == v[m]);
        lemma_first_index_distinct(w, m - 1);
    }
}

/// Stepping an enumeration option forward and then back by the same amount
/// gives back the choice it started from.
pub proof fn law_choice_step_back(id: SegmentId, key: Seq<char>, current: Seq<char>, delta: int)
    requires
        spec_lookup(known_spec(id), key) matches Some(o) && !spec_is_bool(o) && o.choices.contains(
            current,
        ),
    ensures
        cycle_next(id, key, current, delta) is Some,
        cycle_next(id, key, cycle_next(id, key, current, delta)->0, -delta) == Some(current),
{
    reveal_strlit("time");
    reveal_strlit("countdown");
    lemma_spec_lookup_member(known_spec(id), key);
    let o = spec_lookup(known_spec(id), key)->0;
    let c = o.choices;
    assert(c == seq!["time"@, "countdown"@]);
    assert(c[0].len() != c[1].len());
    let n = c.len() as int;
    let i = choose|i: int| 0 <= i < c.len() && c[i] == current;
    lemma_first_index_distinct(c, i);
    assert(choice_index(c, current) == i);
    let m = (i + delta) % n;
    assert(0 <= m < n);
    lemma_first_index_distinct(c, m);
    assert(choice_index(c, c[m]) == m);
    vstd::arithmetic::div_mod::lemma_add_mod_noop_right(m, -delta, n);
    vstd::arithmetic::div_mod::lemma_add_mod_noop(i + delta, -delta, n);
    vstd::arithmetic::div_mod::lemma_small_mod(i as nat, n as nat);
    assert((m + (-delta)) % n == i);
}

/// Each segment's config.toml name is plain ASCII and reads back as that segment.
pub proof fn law_segment_name_roundtrip(id: SegmentId)
    ensures
        all_ascii(trimmed(segment_name_text(id))),
        segment_named(ascii_lowercase(trimmed(segment_name_text(id)))) == Some(id),
{
    reveal_strlit("model");
    reveal_strlit("directory");
    reveal_strlit("git");
    reveal_strlit("context_window");
    reveal_strlit("usage");
    reveal_strlit("credits");
    reveal_strlit("cost");
    reveal_strlit("session");
    reveal_strlit("output_style");
    reveal_strlit("update");
    let t = segment_name_text(id);
    lemma_word_untrimmed(t);
    assert(ascii_lowercase(t) =~= t);
}

/// Booleans and integers read back, through `display_value`, as the same value.
pub proof fn law_parse_display_roundtrip(v: OptionVal)
    requires
        v is Bool || (v matches OptionVal::Int(n) && i64::MIN <= n <= i64::MAX),
    ensures
        parse_base(trimmed(display_text(v))) == Some(v),
{
    reveal_strlit("true");
    reveal_strlit("false");
    match v {
        OptionVal::Bool(b) => {
            let t = display_text(v);
            lemma_word_untrimmed(t);
            if b {
                assert(t =~= "true"@);
            } else {
                assert(t =~= "false"@);
            }
        },
        OptionVal::Int(n) => {
            let t = crate::text::int_text(n);
            crate::text::lemma_int_text_parses(n);
            if n < 0 {
                crate::text::lemma_nat_text_digits((-n) as nat);
                let d = crate::text::nat_text((-n) as nat);
                assert(t.last() == d.last());
                assert(crate::text::is_digit(d[d.len() - 1]));
            } else {
                crate::text::lemma_nat_text_digits(n as nat);
                assert(crate::text::is_digit(t[0]));
                assert(crate::text::is_digit(t[t.len() - 1]));
            }
            lemma_word_untrimmed(t);
            assert(t[0] != "true"@[0] && t[0] != "false"@[0]);
        },
        _ => {},
    }
}

} // verus!
