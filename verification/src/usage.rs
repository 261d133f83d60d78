//! The usage segment: reset-time texts, cache freshness, option reading and
//! the decisions of loading usage data.
use vstd::prelude::*;

use crate::option_map::{val_as_bool, val_as_str, val_as_u64, OptionVal};
use crate::options::{find_segment, segment_index};
use crate::text::{nat_text, push_nat, push_str, to_string, two_digit_string, two_digit_text};
use crate::time::{local_time_of, rfc3339_reading, seconds_until, LocalTime};
use crate::types::{Config, SegmentConfig, SegmentId};

verus! {

/// Five-hour and weekly plan usage, with reset times.
pub struct UsageSegment;

/// The circle slice (1 to 8) shown for a weekly usage percentage.
pub open spec fn circle_slice(percent: u8) -> int {
    if percent <= 12 {
        1
    } else if percent <= 25 {
        2
    } else if percent <= 37 {
        3
    } else if percent <= 50 {
        4
    } else if percent <= 62 {
        5
    } else if percent <= 75 {
        6
    } else if percent <= 87 {
        7
    } else {
        8
    }
}

/// The Nerd Font glyph of circle slice `k` (U+F0A9E for the first).
pub open spec fn circle_glyph(k: int) -> Seq<char> {
    seq![(0xF0A9D + k) as char]
}

/// Time remaining until a reset `secs` seconds away, e.g. "4h 52m", "35m", "2d 3h".
pub open spec fn countdown_spec(secs: int) -> Seq<char> {
    if secs <= 0 {
        "now"@
    } else {
        let total_minutes = secs / 60;
        let days = total_minutes / 1440int;
        let hours = (total_minutes % 1440int) / 60;
        let minutes = total_minutes % 60;
        if days > 0 {
            nat_text(days as nat) + "d "@ + nat_text(hours as nat) + "h"@
        } else if hours > 0 {
            nat_text(hours as nat) + "h "@ + nat_text(minutes as nat) + "m"@
        } else {
            nat_text(minutes as nat) + "m"@
        }
    }
}

/// Local time of day, e.g. "14:35".
pub open spec fn clock_spec(hour: nat, minute: nat) -> Seq<char> {
    two_digit_text(hour) + ":"@ + two_digit_text(minute)
}

/// Abbreviated weekday name, Monday first.
pub open spec fn weekday_name(d: nat) -> Seq<char> {
    if d == 0 {
        "Mon"@
    } else if d == 1 {
        "Tue"@
    } else if d == 2 {
        "Wed"@
    } else if d == 3 {
        "Thu"@
    } else if d == 4 {
        "Fri"@
    } else if d == 5 {
        "Sat"@
    } else {
        "Sun"@
    }
}

/// Local weekday and hour, e.g. "Thu 00h".
pub open spec fn weekday_hour_spec(weekday: nat, hour: nat) -> Seq<char> {
    weekday_name(weekday) + " "@ + two_digit_text(hour) + "h"@
}

/// The local reading the weekly reset shows: past minute 45 the reading an
/// hour later, when there is one; otherwise the reading itself.
pub open spec fn weekly_reading_spec(now: LocalTime, later: Option<LocalTime>) -> LocalTime {
    if now.minute > 45 {
        match later {
            Some(t) => t,
            None => now,
        }
    } else {
        now
    }
}

/// What a countdown shows for an optional reset time: "?" when absent or
/// unreadable, else the countdown to it from some current time.
pub open spec fn countdown_outcome(reset: Option<Seq<char>>, text: Seq<char>) -> bool {
    match reset {
        Some(s) if rfc3339_reading(s) is Some => exists|secs: i64| text == countdown_spec(secs as int),
        _ => text == "?"@,
    }
}

/// What the session reset shows: "?" when absent or unreadable, else a local time of day.
pub open spec fn session_outcome(reset: Option<Seq<char>>, text: Seq<char>) -> bool {
    match reset {
        Some(s) if rfc3339_reading(s) is Some => exists|h: nat, m: nat|
            h < 24 && m < 60 && text == clock_spec(h, m),
        _ => text == "?"@,
    }
}

/// What the weekly reset shows: "?" when absent or unreadable, else a local weekday and hour.
pub open spec fn weekly_outcome(reset: Option<Seq<char>>, text: Seq<char>) -> bool {
    match reset {
        Some(s) if rfc3339_reading(s) is Some => exists|d: nat, h: nat|
            d < 7 && h < 24 && text == weekday_hour_spec(d, h),
        _ => text == "?"@,
    }
}

/// Optional text view.
pub open spec fn opt_text(s: Option<&str>) -> Option<Seq<char>> {
    match s {
        Some(t) => Some(t@),
        None => None,
    }
}

/// A cached response is fresh while fewer than `duration` seconds have passed
/// since it was cached (`duration` taken as `i64`, as `u64 as i64` does).
pub open spec fn cache_fresh_spec(seconds_until_cached: int, duration: u64) -> bool {
    let limit = if duration <= i64::MAX {
        duration as int
    } else {
        duration - 18446744073709551616
    };
    -seconds_until_cached < limit
}

impl UsageSegment {
    pub fn new() -> (r: Self) {
        UsageSegment
    }

    /// Circle icon that fills with the weekly usage percentage.
    pub fn get_circle_icon(percent: u8) -> (r: String)
        ensures
            r@ == circle_glyph(circle_slice(percent)),
    {
        let glyph = if percent <= 12 {
            '\u{f0a9e}'
        } else if percent <= 25 {
            '\u{f0a9f}'
        } else if percent <= 37 {
            '\u{f0aa0}'
        } else if percent <= 50 {
            '\u{f0aa1}'
        } else if percent <= 62 {
            '\u{f0aa2}'
        } else if percent <= 75 {
            '\u{f0aa3}'
        } else if percent <= 87 {
            '\u{f0aa4}'
        } else {
            '\u{f0aa5}'
        };
        let mut out = String::new();
        crate::text::push_char(&mut out, glyph);
        assert(out@ =~= circle_glyph(circle_slice(percent)));
        out
    }

    /// Countdown text for a reset `seconds` seconds from now.
    pub fn countdown_text(seconds: i64) -> (r: String)
        ensures
            r@ == countdown_spec(seconds as int),
    {
        if seconds <= 0 {
            return to_string("now");
        }
        let total_minutes = seconds / 60;
        let days = total_minutes / (24 * 60);
        let hours = (total_minutes % (24 * 60)) / 60;
        let minutes = total_minutes % 60;
        let mut out = String::new();
        if days > 0 {
            push_nat(&mut out, days as u64);
            push_str(&mut out, "d ");
            push_nat(&mut out, hours as u64);
            push_str(&mut out, "h");
        } else if hours > 0 {
            push_nat(&mut out, hours as u64);
            push_str(&mut out, "h ");
            push_nat(&mut out, minutes as u64);
            push_str(&mut out, "m");
        } else {
            push_nat(&mut out, minutes as u64);
            push_str(&mut out, "m");
        }
        assert(out@ =~= countdown_spec(seconds as int));
        out
    }

    /// Time remaining until reset, e.g. "4h 52m", "35m", "2d 3h".
    pub fn format_reset_countdown(reset_time_str: Option<&str>) -> (r: String)
        ensures
            countdown_outcome(opt_text(reset_time_str), r@),
    {
        let time_str = match reset_time_str {
            Some(s) => s,
            None => {
                return to_string("?");
            },
        };
        match seconds_until(time_str) {
            Some(secs) => {
                let r = Self::countdown_text(secs);
                assert(countdown_outcome(opt_text(reset_time_str), r@));
                r
            },
            None => to_string("?"),
        }
    }

    /// Local time of day of a reading, e.g. "14:35".
    pub fn clock_text(t: &LocalTime) -> (r: String)
        ensures
            r@ == clock_spec(t.hour as nat, t.minute as nat),
    {
        let mut out = two_digit_string(t.hour as u64);
        push_str(&mut out, ":");
        let m = two_digit_string(t.minute as u64);
        push_str(&mut out, m.as_str());
        out
    }

    /// Five-hour window reset: local time of day, e.g. "14:35".
    pub fn format_session_reset(reset_time_str: Option<&str>) -> (r: String)
        ensures
            session_outcome(opt_text(reset_time_str), r@),
    {
        let time_str = match reset_time_str {
            Some(s) => s,
            None => {
                return to_string("?");
            },
        };
        match local_time_of(time_str, 0) {
            Some(t) => {
                let r = Self::clock_text(&t);
                assert(session_outcome(opt_text(reset_time_str), r@)) by {
                    assert(t.hour < 24 && t.minute < 60 && r@ == clock_spec(
                        t.hour as nat,
                        t.minute as nat,
                    ));
                }
                r
            },
            None => to_string("?"),
        }
    }

    /// Local weekday and hour of a reading, e.g. "Thu 00h".
    pub fn weekday_hour_text(t: &LocalTime) -> (r: String)
        requires
            t.weekday < 7,
        ensures
            r@ == weekday_hour_spec(t.weekday as nat, t.hour as nat),
    {
        let name = if t.weekday == 0 {
            "Mon"
        } else if t.weekday == 1 {
            "Tue"
        } else if t.weekday == 2 {
            "Wed"
        } else if t.weekday == 3 {
            "Thu"
        } else if t.weekday == 4 {
            "Fri"
        } else if t.weekday == 5 {
            "Sat"
        } else {
            "Sun"
        };
        let mut out = to_string(name);
        push_str(&mut out, " ");
        let h = two_digit_string(t.hour as u64);
        push_str(&mut out, h.as_str());
        push_str(&mut out, "h");
        out
    }

    /// The reading the weekly reset shows: the one an hour later when the
    /// minute is past 45 (and that reading is at hand), else the reading itself.
    pub fn weekly_reading(now: LocalTime, later: Option<LocalTime>) -> (r: LocalTime)
        ensures
            r == weekly_reading_spec(now, later),
    {
        if now.minute > 45 {
            match later {
                Some(t) => t,
                None => now,
            }
        } else {
            now
        }
    }

    /// Weekly reset text of a local reading `now` and of the reading an hour
    /// later: e.g. "Thu 00h" for Wednesday 23:50.
    pub fn weekly_text(now: LocalTime, later: Option<LocalTime>) -> (r: String)
        requires
            now.weekday < 7,
            later matches Some(t) ==> t.weekday < 7,
        ensures
            r@ == weekday_hour_spec(
                weekly_reading_spec(now, later).weekday as nat,
                weekly_reading_spec(now, later).hour as nat,
            ),
    {
        let shown = Self::weekly_reading(now, later);
        Self::weekday_hour_text(&shown)
    }

    /// Weekly window reset: local weekday and hour, rounded up to the next
    /// hour past 45 minutes, e.g. "Thu 00h". The rounding is `weekly_text`'s.
    pub fn format_weekly_reset(reset_time_str: Option<&str>) -> (r: String)
        ensures
            weekly_outcome(opt_text(reset_time_str), r@),
    {
        let time_str = match reset_time_str {
            Some(s) => s,
            None => {
                return to_string("?");
            },
        };
        let now = match local_time_of(time_str, 0) {
            Some(t) => t,
            None => {
                return to_string("?");
            },
        };
        let later = if now.minute > 45 {
            local_time_of(time_str, 1)
        } else {
            None
        };
        let ghost shown = weekly_reading_spec(now, later);
        let r = Self::weekly_text(now, later);
        assert(weekly_outcome(opt_text(reset_time_str), r@)) by {
            assert(shown.weekday < 7 && shown.hour < 24 && r@ == weekday_hour_spec(
                shown.weekday as nat,
                shown.hour as nat,
            ));
        }
        r
    }

    /// Whether a cached response is still fresh, given how many seconds from
    /// now its caching time lies (negative: in the past).
    pub fn cache_fresh(seconds_until_cached: i64, cache_duration: u64) -> (r: bool)
        ensures
            r == cache_fresh_spec(seconds_until_cached as int, cache_duration),
    {
        let limit: i128 = if cache_duration <= 9223372036854775807u64 {
            cache_duration as i128
        } else {
            cache_duration as i128 - 18446744073709551616i128
        };
        -(seconds_until_cached as i128) < limit
    }

    /// Whether the response cached at `cached_at` (RFC 3339) is still fresh;
    /// an unreadable time is never fresh.
    pub fn is_cache_valid(&self, cached_at: &str, cache_duration: u64) -> (r: bool)
        ensures
            rfc3339_reading(cached_at@) is None ==> !r,
            rfc3339_reading(cached_at@) is Some ==> exists|secs: i64|
                r == cache_fresh_spec(secs as int, cache_duration),
    {
        match seconds_until(cached_at) {
            Some(secs) => Self::cache_fresh(secs, cache_duration),
            None => false,
        }
    }
}


/// The value stored under `key` in the first segment with id `id`.
pub open spec fn segment_option(config: &Config, id: SegmentId, key: Seq<char>) -> Option<OptionVal> {
    match segment_index(config.segments@, id) {
        Some(j) => if config.segments@[j].options@.contains_key(key) {
            Some(config.segments@[j].options@[key])
        } else {
            None
        },
        None => None,
    }
}

/// A text option, else its default.
pub open spec fn text_option(v: Option<OptionVal>, default: Seq<char>) -> Seq<char> {
    match v {
        Some(x) => match val_as_str(x) {
            Some(t) => t,
            None => default,
        },
        None => default,
    }
}

/// A non-negative integer option, else its default.
pub open spec fn u64_option(v: Option<OptionVal>, default: int) -> int {
    match v {
        Some(x) => match val_as_u64(x) {
            Some(n) => n,
            None => default,
        },
        None => default,
    }
}

/// A boolean option, else its default.
pub open spec fn bool_option(v: Option<OptionVal>, default: bool) -> bool {
    match v {
        Some(x) => match val_as_bool(x) {
            Some(b) => b,
            None => default,
        },
        None => default,
    }
}

/// API and cache settings of the usage segment, shared with the credits segment.
pub struct UsageOptions {
    pub api_base_url: String,
    /// Seconds to cache API responses
    pub cache_duration: u64,
    /// API request timeout in seconds
    pub timeout: u64,
}

impl Default for UsageOptions {
    fn default() -> (r: Self)
        ensures
            r.api_base_url@ == "https://api.anthropic.com"@,
            r.cache_duration == 300,
            r.timeout == 2,
    {
        UsageOptions {
            api_base_url: to_string("https://api.anthropic.com"),
            cache_duration: 300,
            timeout: 2,
        }
    }
}

/// Looks `key` up in the first segment with id `id`.
pub fn option_in<'a>(config: &'a Config, id: SegmentId, key: &str) -> (r: Option<&'a crate::option_map::OptionValue>)
    ensures
        match r {
            Some(v) => segment_option(config, id, key@) == Some(v@),
            None => segment_option(config, id, key@) is None,
        },
{
    match find_segment(&config.segments, id) {
        Some(j) => {
            proof {
                crate::options::lemma_segment_index_at(config.segments@, id);
            }
            config.segments[j].options.get(key)
        },
        None => None,
    }
}

impl UsageOptions {
    /// The options of the usage segment in `config`, each falling back to its default.
    pub fn from_config(config: &Config) -> (r: UsageOptions)
        ensures
            r.api_base_url@ == text_option(
                segment_option(config, SegmentId::Usage, "api_base_url"@),
                "https://api.anthropic.com"@,
            ),
            r.cache_duration == u64_option(
                segment_option(config, SegmentId::Usage, "cache_duration"@),
                300,
            ),
            r.timeout == u64_option(segment_option(config, SegmentId::Usage, "timeout"@), 2),
    {
        let api_base_url = match option_in(config, SegmentId::Usage, "api_base_url") {
            Some(v) => match v.as_str() {
                Some(t) => to_string(t),
                None => to_string("https://api.anthropic.com"),
            },
            None => to_string("https://api.anthropic.com"),
        };
        let cache_duration = match option_in(config, SegmentId::Usage, "cache_duration") {
            Some(v) => match v.as_u64() {
                Some(n) => n,
                None => 300,
            },
            None => 300,
        };
        let timeout = match option_in(config, SegmentId::Usage, "timeout") {
            Some(v) => match v.as_u64() {
                Some(n) => n,
                None => 2,
            },
            None => 2,
        };
        UsageOptions { api_base_url, cache_duration, timeout }
    }
}

/// How the usage segment shows reset times.
pub struct UsageDisplay {
    /// `reset_format = "countdown"`: time remaining instead of clock time / weekday
    pub countdown: bool,
    /// `show_weekly`: append the weekly block
    pub show_weekly: bool,
}

impl UsageDisplay {
    /// The display options of the usage segment in `config`.
    pub fn from_config(config: &Config) -> (r: UsageDisplay)
        ensures
            r.countdown == (match segment_option(config, SegmentId::Usage, "reset_format"@) {
                Some(v) => val_as_str(v) == Some("countdown"@),
                None => false,
            }),
            r.show_weekly == bool_option(segment_option(config, SegmentId::Usage, "show_weekly"@), true),
    {
        let countdown = match option_in(config, SegmentId::Usage, "reset_format") {
            Some(v) => match v.as_str() {
                Some(t) => crate::text::str_eq(t, "countdown"),
                None => false,
            },
            None => false,
        };
        let show_weekly = match option_in(config, SegmentId::Usage, "show_weekly") {
            Some(v) => match v.as_bool() {
                Some(b) => b,
                None => true,
            },
            None => true,
        };
        UsageDisplay { countdown, show_weekly }
    }
}

/// The secondary text: the session reset, then the weekly block when shown.
pub open spec fn usage_secondary(session: Seq<char>, weekly: Option<Seq<char>>, seven_day_percent: u8) -> Seq<char> {
    "· "@ + session + match weekly {
        Some(w) => " \u{2502} 7d "@ + nat_text(seven_day_percent as nat) + "% · "@ + w,
        None => Seq::empty(),
    }
}

/// The reset texts fit the display options: the session reset as a countdown
/// or local time; the weekly one, present exactly when shown, as a countdown or
/// local weekday and hour.
pub open spec fn reset_texts_ok(
    display: &UsageDisplay,
    five_hour_resets_at: Option<Seq<char>>,
    seven_day_resets_at: Option<Seq<char>>,
    session: Seq<char>,
    weekly: Option<Seq<char>>,
) -> bool {
    &&& (if display.countdown {
        countdown_outcome(five_hour_resets_at, session)
    } else {
        session_outcome(five_hour_resets_at, session)
    })
    &&& match weekly {
        Some(w) => display.show_weekly && (if display.countdown {
            countdown_outcome(seven_day_resets_at, w)
        } else {
            weekly_outcome(seven_day_resets_at, w)
        }),
        None => !display.show_weekly,
    }
}

/// Where usage data comes from, decided step by step as the I/O completes.
pub enum LoadStep {
    /// Use the cached API response
    UseCache,
    /// Ask the usage API
    Fetch,
    /// Use the rate limits of the statusline input
    UseInput,
}

/// After asking the API: what to show.
pub enum FetchFallback {
    /// The fresh API response (and cache it)
    Api,
    /// The cached response, even if stale
    Cache,
    /// The rate limits of the statusline input
    Input,
}

impl UsageSegment {
    /// First decision: without an OAuth token only the input's rate limits are
    /// used; with one, a fresh cache is used, else the API is asked.
    pub fn plan_load(has_token: bool, cache_is_fresh: bool) -> (r: LoadStep)
        ensures
            !has_token ==> r is UseInput,
            has_token && cache_is_fresh ==> r is UseCache,
            has_token && !cache_is_fresh ==> r is Fetch,
    {
        if !has_token {
            LoadStep::UseInput
        } else if cache_is_fresh {
            LoadStep::UseCache
        } else {
            LoadStep::Fetch
        }
    }

    /// After the API call: its response, else any cached response, else the input.
    pub fn after_fetch(fetched: bool, has_cache: bool) -> (r: FetchFallback)
        ensures
            fetched ==> r is Api,
            !fetched && has_cache ==> r is Cache,
            !fetched && !has_cache ==> r is Input,
    {
        if fetched {
            FetchFallback::Api
        } else if has_cache {
            FetchFallback::Cache
        } else {
            FetchFallback::Input
        }
    }

    /// Texts of the segment: primary "24%", secondary "· 03:20" followed, when
    /// the weekly block is shown, by " │ 7d 15% · Thu 00h".
    pub fn usage_texts(
        five_hour_percent: u8,
        seven_day_percent: u8,
        session_reset: &str,
        weekly_reset: Option<&str>,
    ) -> (r: (String, String))
        ensures
            r.0@ == nat_text(five_hour_percent as nat) + "%"@,
            r.1@ == usage_secondary(session_reset@, opt_text(weekly_reset), seven_day_percent),
    {
        let mut primary = String::new();
        push_nat(&mut primary, five_hour_percent as u64);
        push_str(&mut primary, "%");
        let mut secondary = to_string("· ");
        push_str(&mut secondary, session_reset);
        match weekly_reset {
            Some(w) => {
                push_str(&mut secondary, " \u{2502} 7d ");
                push_nat(&mut secondary, seven_day_percent as u64);
                push_str(&mut secondary, "% · ");
                push_str(&mut secondary, w);
            },
            None => {},
        }
        (primary, secondary)
    }

    /// Texts of the segment from its usage numbers: the session reset as a
    /// countdown or local time, and the weekly block when shown.
    pub fn render(
        &self,
        display: &UsageDisplay,
        five_hour_percent: u8,
        seven_day_percent: u8,
        five_hour_resets_at: Option<&str>,
        seven_day_resets_at: Option<&str>,
    ) -> (r: (String, String))
        ensures
            r.0@ == nat_text(five_hour_percent as nat) + "%"@,
            exists|session: Seq<char>, weekly: Option<Seq<char>>|
                #[trigger] reset_texts_ok(
                    display,
                    opt_text(five_hour_resets_at),
                    opt_text(seven_day_resets_at),
                    session,
                    weekly,
                ) && r.1@ == usage_secondary(session, weekly, seven_day_percent),
    {
        let session = if display.countdown {
            Self::format_reset_countdown(five_hour_resets_at)
        } else {
            Self::format_session_reset(five_hour_resets_at)
        };
        let weekly: Option<String> = if display.show_weekly {
            if display.countdown {
                Some(Self::format_reset_countdown(seven_day_resets_at))
            } else {
                Some(Self::format_weekly_reset(seven_day_resets_at))
            }
        } else {
            None
        };
        let r = match &weekly {
            Some(w) => Self::usage_texts(
                five_hour_percent,
                seven_day_percent,
                session.as_str(),
                Some(w.as_str()),
            ),
            None => Self::usage_texts(five_hour_percent, seven_day_percent, session.as_str(), None),
        };
        let ghost wv: Option<Seq<char>> = match weekly {
            Some(w) => Some(w@),
            None => None,
        };
        assert(r.1@ == usage_secondary(session@, wv, seven_day_percent));
        assert(reset_texts_ok(
            display,
            opt_text(five_hour_resets_at),
            opt_text(seven_day_resets_at),
            session@,
            wv,
        ));
        r
    }
}


/// An entry of the `env` table in the assistant's settings file.
pub enum EnvSetting {
    /// The key is not there
    Absent,
    /// A string value
    Text(String),
    /// Any other JSON value
    Other,
}

/// The proxy to use: `HTTPS_PROXY` when the key is there, else `HTTP_PROXY`;
/// a chosen entry that is not a string gives none.
pub open spec fn proxy_spec(https: EnvSetting, http: EnvSetting) -> Option<Seq<char>> {
    let chosen = match https {
        EnvSetting::Absent => http,
        _ => https,
    };
    match chosen {
        EnvSetting::Text(t) => Some(t@),
        _ => None,
    }
}

impl UsageSegment {
    /// The proxy named by the settings' `env` table.
    pub fn proxy_choice(https: &EnvSetting, http: &EnvSetting) -> (r: Option<String>)
        ensures
            match r {
                Some(t) => proxy_spec(*https, *http) == Some(t@),
                None => proxy_spec(*https, *http) is None,
            },
    {
        let chosen = match https {
            EnvSetting::Absent => http,
            _ => https,
        };
        match chosen {
            EnvSetting::Text(t) => Some(t.clone()),
            _ => None,
        }
    }
}

} // verus!
