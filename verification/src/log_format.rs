//! The log output format and the environment variables that choose it.

use vstd::prelude::*;
use crate::env::{env_entry, env_is_set, opt_view, EnvVars, EnvView};
use crate::text::{
    chars_of,
    is_ws,
    lemma_is_ws_is_unicode_white_space,
    lemma_trim_padded,
    lower,
    lower_range_is,
    trim,
    trim_bounds,
    trim_end,
    trim_start,
    unicode_white_space,
};

verus! {

/// How log lines are written to stdout.
#[derive(Clone, Copy, Debug, PartialEq, Eq, Structural)]
pub enum LogFormat {
    /// One JSON object per line (the fleet default).
    Json,
    /// Compact human-readable lines.
    Text,
}

/// The names that select the human-readable format (after trimming and ASCII
/// lower-casing).
pub open spec fn is_text_alias(n: Seq<char>) -> bool {
    ||| n == "text"@
    ||| n == "plain"@
    ||| n == "pretty"@
    ||| n == "compact"@
}

/// The format a configured value selects: `Text` for a text alias, in any
/// ASCII case and with surrounding whitespace, `Json` for anything else.
pub open spec fn format_of_value(value: Seq<char>) -> LogFormat {
    if is_text_alias(lower(trim(value))) {
        LogFormat::Text
    } else {
        LogFormat::Json
    }
}

/// The configured format setting: the value of `FIDUCIA_LOG_FORMAT` when it
/// is set, else of `OTEL_LOG_FORMAT` when it is set, else of the legacy
/// `LOG_FORMAT` when it is set, else `"json"`. A variable that is set decides
/// even when it is empty or not valid Unicode (`None`).
pub open spec fn configured_format_entry(env: EnvView) -> Option<Seq<char>> {
    match env_entry(env, "FIDUCIA_LOG_FORMAT"@) {
        Some(v) => v,
        None => match env_entry(env, "OTEL_LOG_FORMAT"@) {
            Some(v) => v,
            None => match env_entry(env, "LOG_FORMAT"@) {
                Some(v) => v,
                None => Some("json"@),
            },
        },
    }
}

/// The format a setting selects; a value that is not valid Unicode is no
/// text alias and selects JSON.
pub open spec fn format_of_entry(v: Option<Seq<char>>) -> LogFormat {
    match v {
        Some(t) => format_of_value(t),
        None => LogFormat::Json,
    }
}

/// The format the environment selects.
pub open spec fn format_of_env(env: EnvView) -> LogFormat {
    format_of_entry(configured_format_entry(env))
}

/// The name of a format, as logged in the startup event.
pub open spec fn format_name(f: LogFormat) -> Seq<char> {
    match f {
        LogFormat::Json => "json"@,
        LogFormat::Text => "text"@,
    }
}

/// Reading back the logged name of a format selects that same format.
pub proof fn lemma_format_name_round_trip(f: LogFormat)
    ensures
        format_of_value(format_name(f)) == f,
{
    reveal_strlit("json");
    reveal_strlit("text");
    reveal_strlit("plain");
    reveal_strlit("pretty");
    reveal_strlit("compact");
    let n = format_name(f);
    assert(trim_start(n.drop_first().drop_first().drop_first().drop_first()) == n.skip(4));
    assert(trim_start(n) == n);
    assert(trim_end(n) == n);
    assert(lower(n) =~= n);
}

/// The format variables are read in a fixed order: `FIDUCIA_LOG_FORMAT`
/// alone decides whenever it is set (to any value, Unicode or not);
/// `OTEL_LOG_FORMAT` decides only when it is unset; the legacy `LOG_FORMAT`
/// decides only when both are unset; with none of them set the format is JSON.
pub proof fn lemma_format_precedence(env: EnvView)
    ensures
        env_entry(env, "FIDUCIA_LOG_FORMAT"@) matches Some(v) ==> format_of_env(env)
            == format_of_entry(v),
        !env_is_set(env, "FIDUCIA_LOG_FORMAT"@) ==> (env_entry(env, "OTEL_LOG_FORMAT"@) matches Some(
            v,
        ) ==> format_of_env(env) == format_of_entry(v)),
        !env_is_set(env, "FIDUCIA_LOG_FORMAT"@) && !env_is_set(env, "OTEL_LOG_FORMAT"@) ==> (
        env_entry(env, "LOG_FORMAT"@) matches Some(v) ==> format_of_env(env) == format_of_entry(v)),
        !env_is_set(env, "FIDUCIA_LOG_FORMAT"@) && !env_is_set(env, "OTEL_LOG_FORMAT"@)
            && !env_is_set(env, "LOG_FORMAT"@) ==> format_of_env(env) == LogFormat::Json,
{
    lemma_format_name_round_trip(LogFormat::Json);
}

/// Unicode whitespace around a format value does not change the format it
/// selects: `"text\r"` (a value from a CRLF file) or `" plain\t"` select
/// text as `"text"` and `"plain"` do.
pub proof fn lemma_format_ignores_surrounding_white_space(a: Seq<char>, v: Seq<char>, b: Seq<char>)
    requires
        forall|i: int| 0 <= i < a.len() ==> unicode_white_space().contains(#[trigger] a[i]),
        forall|i: int| 0 <= i < b.len() ==> unicode_white_space().contains(#[trigger] b[i]),
    ensures
        format_of_value(a + v + b) == format_of_value(v),
{
    assert forall|i: int| 0 <= i < a.len() implies is_ws(#[trigger] a[i]) by {
        lemma_is_ws_is_unicode_white_space(a[i]);
    }
    assert forall|i: int| 0 <= i < b.len() implies is_ws(#[trigger] b[i]) by {
        lemma_is_ws_is_unicode_white_space(b[i]);
    }
    lemma_trim_padded(a, v, b);
}

impl LogFormat {
    /// The format that the process environment `env` selects.
    pub fn from_env_with(env: &EnvVars) -> (r: LogFormat)
        ensures
            r == format_of_env(env@),
    {
        match env.get_entry("FIDUCIA_LOG_FORMAT") {
            Some(v) => Self::from_setting(v),
            None => match env.get_entry("OTEL_LOG_FORMAT") {
                Some(v) => Self::from_setting(v),
                None => match env.get_entry("LOG_FORMAT") {
                    Some(v) => Self::from_setting(v),
                    None => Self::from_value("json"),
                },
            },
        }
    }

    /// The format a variable's setting selects (`None`: not valid Unicode).
    fn from_setting(v: Option<String>) -> (r: LogFormat)
        ensures
            r == format_of_entry(opt_view(v)),
    {
        match v {
            Some(t) => Self::from_value(t.as_str()),
            None => LogFormat::Json,
        }
    }

    /// The format that one configured value selects.
    pub fn from_value(value: &str) -> (r: LogFormat)
        ensures
            r == format_of_value(value@),
    {
        let v = chars_of(value);
        let (a, b) = trim_bounds(&v, 0, v.len());
        assert(v@.subrange(0, v@.len() as int) =~= value@);
        if lower_range_is(&v, a, b, "text") || lower_range_is(&v, a, b, "plain") || lower_range_is(
            &v,
            a,
            b,
            "pretty",
        ) || lower_range_is(&v, a, b, "compact") {
            LogFormat::Text
        } else {
            LogFormat::Json
        }
    }

    /// The name of this format.
    pub fn as_str(self) -> (r: &'static str)
        ensures
            r@ == format_name(self),
    {
        match self {
            LogFormat::Json => "json",
            LogFormat::Text => "text",
        }
    }
}

} // verus!
