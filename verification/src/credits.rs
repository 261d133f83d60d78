//! The credits segment: extra-usage credits spent this month against the
//! seat's spend limit, e.g. `$23.75/$50 · 48%`.
use vstd::prelude::*;

use crate::text::{nat_text, push_nat, push_str, str_eq, to_string};
use crate::usage::UsageOptions;

verus! {

/// Extra-usage credits segment. Only rendered when the organization enables credits.
pub struct CreditsSegment {
    /// Whether the used percentage is appended (`show_percent` option, default: true)
    show_percent: bool,
    /// API / cache settings shared with the `usage` segment
    usage_options: UsageOptions,
}

impl Default for CreditsSegment {
    fn default() -> (r: Self)
        ensures
            r.shows_percent(),
            r.options().api_base_url@ == "https://api.anthropic.com"@,
            r.options().cache_duration == 300,
            r.options().timeout == 2,
    {
        CreditsSegment { show_percent: true, usage_options: UsageOptions::default() }
    }
}

/// Currency symbol shown before amounts.
pub open spec fn currency_symbol_text(currency: Seq<char>) -> Seq<char> {
    if currency == "USD"@ {
        "$"@
    } else if currency == "EUR"@ {
        "€"@
    } else if currency == "GBP"@ {
        "£"@
    } else {
        Seq::empty()
    }
}

impl CreditsSegment {
    pub closed spec fn shows_percent(&self) -> bool {
        self.show_percent
    }

    pub closed spec fn options(&self) -> UsageOptions {
        self.usage_options
    }

    pub fn new() -> (r: Self)
        ensures
            r.shows_percent(),
            r.options().api_base_url@ == "https://api.anthropic.com"@,
            r.options().cache_duration == 300,
            r.options().timeout == 2,
    {
        Self::default()
    }

    pub fn with_show_percent(self, show_percent: bool) -> (r: Self)
        ensures
            r.shows_percent() == show_percent,
            r.options() == self.options(),
    {
        let mut s = self;
        s.show_percent = show_percent;
        s
    }

    /// Use the `usage` segment's API / cache options from the active configuration.
    pub fn with_usage_options(self, options: UsageOptions) -> (r: Self)
        ensures
            r.shows_percent() == self.shows_percent(),
            r.options() == options,
    {
        let mut s = self;
        s.usage_options = options;
        s
    }

    /// The API / cache options the segment loads usage data with.
    pub fn usage_options(&self) -> (r: &UsageOptions)
        ensures
            *r == self.options(),
    {
        &self.usage_options
    }

    /// Text after the amounts: "· 48%" when the percentage is shown, else nothing.
    pub fn percent_text(&self, percent: u8) -> (r: String)
        ensures
            r@ == (if self.shows_percent() {
                "· "@ + nat_text(percent as nat) + "%"@
            } else {
                Seq::empty()
            }),
    {
        if self.show_percent {
            let mut out = to_string("· ");
            push_nat(&mut out, percent as u64);
            push_str(&mut out, "%");
            out
        } else {
            String::new()
        }
    }

    /// Symbol of a currency code: `$`, `€`, `£`, or nothing for others.
    pub fn currency_symbol(currency: &str) -> (r: &'static str)
        ensures
            r@ == currency_symbol_text(currency@),
    {
        if str_eq(currency, "USD") {
            "$"
        } else if str_eq(currency, "EUR") {
            "€"
        } else if str_eq(currency, "GBP") {
            "£"
        } else {
            proof {
                reveal_strlit("");
            }
            ""
        }
    }

    /// "$23.75/$50": used and limit amounts, each after the currency symbol.
    pub fn credits_text(currency: &str, used: &str, limit: &str) -> (r: String)
        ensures
            r@ == currency_symbol_text(currency@) + used@ + "/"@ + currency_symbol_text(currency@)
                + limit@,
    {
        let symbol = Self::currency_symbol(currency);
        let mut out = to_string(symbol);
        push_str(&mut out, used);
        push_str(&mut out, "/");
        push_str(&mut out, symbol);
        push_str(&mut out, limit);
        out
    }
}

} // verus!
