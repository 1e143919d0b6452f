//! Runtime configuration: each setting comes from an environment variable and
//! falls back to its default when the variable is unset, empty, or does not
//! parse.

use vstd::prelude::*;
use crate::text::{
    chars_of, concat, is_digit, parse_u64, parse_u64_spec, string_of,
};

verus! {

/// A span of time, as whole seconds and the nanoseconds beyond them.
#[derive(Clone, Copy, Debug, PartialEq, Eq, Structural)]
pub struct Timeout {
    pub secs: u64,
    pub nanos: u32,
}

impl Timeout {
    /// A span of whole seconds.
    pub fn from_secs(secs: u64) -> (r: Timeout)
        ensures
            r == (Timeout { secs, nanos: 0 }),
    {
        Timeout { secs, nanos: 0 }
    }
}

/// All runtime configuration values.
#[derive(Debug)]
pub struct Config {
    /// Listen address. May begin with `:` (e.g. `":8080"`) to bind all
    /// interfaces; the caller translates that to a concrete address.
    pub listen: String,
    /// Maximum permitted response size in bytes.
    pub size_limit: u64,
    /// Buffer size for streamed copies in bytes.
    pub buffer_size: usize,
    /// Upstream request timeout.
    pub upstream_timeout: Timeout,
    /// Graceful shutdown timeout.
    pub shutdown_timeout: Timeout,
}

/// The raw values of the variables `LISTEN`, `SIZE_LIMIT`, `BUFFER_SIZE`,
/// `UPSTREAM_TIMEOUT` and `SHUTDOWN_TIMEOUT`; `None` where a variable is unset
/// or not valid Unicode.
#[derive(Debug)]
pub struct EnvVars {
    pub listen: Option<String>,
    pub size_limit: Option<String>,
    pub buffer_size: Option<String>,
    pub upstream_timeout: Option<String>,
    pub shutdown_timeout: Option<String>,
}

pub const DEFAULT_LISTEN: &'static str = ":8080";
pub const DEFAULT_SIZE_LIMIT: u64 = 1_072_668_082_176;
pub const DEFAULT_BUFFER_SIZE: u64 = 32768;
pub const DEFAULT_UPSTREAM_TIMEOUT_SECS: u64 = 30;
pub const DEFAULT_SHUTDOWN_TIMEOUT_SECS: u64 = 10;

/// What `humantime::parse_duration` returns for `text`, as whole seconds and
/// subsecond nanoseconds; `None` where it returns an error.
pub uninterp spec fn humantime_duration(text: Seq<char>) -> Option<(u64, u32)>;

/// Seconds in a year as humantime counts it (365.25 days), its largest unit.
pub const YEAR_SECS: u64 = 31_557_600;

/// A character that ends a number in a humantime duration text: a unit
/// letter (ASCII or `µ`) or the decimal point.
pub open spec fn ends_number(c: char) -> bool {
    ('a' <= c && c <= 'z') || ('A' <= c && c <= 'Z') || c == 'µ' || c == '.'
}

/// What a closed digit group may add to a duration: at most a year per unit
/// of its value, plus one more year for a fractional or carried part.
pub open spec fn group_weight(group: Option<nat>) -> nat {
    match group {
        Some(v) => (v + 1) * (YEAR_SECS as nat),
        None => 0,
    }
}

/// Reads a duration text left to right: the weight of the digit groups
/// already closed by a unit letter or decimal point, and the value of the
/// group still open (digits joined across any other characters, as humantime
/// joins them across white space).
pub open spec fn duration_scan(s: Seq<char>) -> (nat, Option<nat>)
    decreases s.len(),
{
    if s.len() == 0 {
        (0, None)
    } else {
        let (closed, open) = duration_scan(s.drop_last());
        let c = s.last();
        if is_digit(c) {
            let v = match open {
                Some(v) => v,
                None => 0,
            };
            (closed, Some(v * 10 + ((c as u32 - '0' as u32) as nat)))
        } else if ends_number(c) {
            (closed + group_weight(open), None)
        } else {
            (closed, open)
        }
    }
}

/// An upper bound, in seconds, on every running total humantime reaches
/// while reading `text`.
///
/// Every number humantime reads is made of the digits of one group (it joins
/// digits across white space, and a unit letter or decimal point ends it), so
/// its value is at most the group's; it counts at most a year per unit, a
/// fractional part adds less than one unit, and nanosecond parts and carries
/// far less. Each group is therefore charged `(value + 1)` years, and one year
/// more is added as slack.
pub open spec fn duration_bound(text: Seq<char>) -> nat {
    let (closed, open) = duration_scan(text);
    closed + group_weight(open) + (YEAR_SECS as nat)
}

/// A duration text that `humantime` may be called on.
///
/// `humantime::parse_duration` panics (in `Duration::new`) only when a running
/// total reaches `u64::MAX` seconds with a full second of nanoseconds still
/// to carry. While `duration_bound(text)` stays below `u64::MAX`, no running
/// total can get there.
pub open spec fn duration_text_admissible(text: Seq<char>) -> bool {
    duration_bound(text) < u64::MAX
}

proof fn lemma_duration_bound_grows(s: Seq<char>, k: int)
    requires
        0 <= k <= s.len(),
    ensures
        duration_bound(s.take(k)) <= duration_bound(s),
    decreases s.len() - k,
{
    if k < s.len() {
        lemma_duration_bound_grows(s, k + 1);
        assert(s.take(k + 1).drop_last() =~= s.take(k));
    } else {
        assert(s.take(k) =~= s);
    }
}

/// Whether a duration text may be handed to `humantime`
/// (`duration_text_admissible`). The caller that reads the environment treats
/// a text that is not as unparseable.
pub fn is_admissible_duration_text(text: &str) -> (r: bool)
    ensures
        r == duration_text_admissible(text@),
{
    let s = chars_of(text);
    let limit: u128 = 18446744073709551615;
    let year: u128 = 31557600;
    let mut closed: u128 = 0;
    let mut open: Option<u128> = None;
    let mut i: usize = 0;
    while i < s.len()
        invariant
            i <= s.len(),
            s@ == text@,
            limit == u64::MAX,
            year == YEAR_SECS,
            duration_scan(s@.take(i as int)).0 == closed,
            duration_scan(s@.take(i as int)).1 == match open {
                Some(v) => Some(v as nat),
                None => None::<nat>,
            },
            duration_bound(s@.take(i as int)) < limit,
        decreases s.len() - i,
    {
        proof {
            assert(s@.take(i + 1).drop_last() =~= s@.take(i as int));
            assert(s@.take(i + 1).last() == s@[i as int]);
        }
        let c = s[i];
        if '0' <= c && c <= '9' {
            let v = match open {
                Some(v) => v,
                None => 0,
            };
            open = Some(v * 10 + (c as u32 - '0' as u32) as u128);
        } else if ('a' <= c && c <= 'z') || ('A' <= c && c <= 'Z') || c == 'µ' || c == '.' {
            let w = match open {
                Some(v) => (v + 1) * year,
                None => 0,
            };
            closed = closed + w;
            open = None;
        }
        let w = match open {
            Some(v) => (v + 1) * year,
            None => 0,
        };
        proof {
            let open_view = match open {
                Some(v) => Some(v as nat),
                None => None::<nat>,
            };
            assert(duration_scan(s@.take(i + 1)).0 == closed);
            assert(duration_scan(s@.take(i + 1)).1 == open_view);
            assert(group_weight(open_view) == w);
            assert(duration_bound(s@.take(i + 1)) == closed + w + year);
        }
        if closed + w + year >= limit {
            proof {
                lemma_duration_bound_grows(s@, i + 1);
                assert(duration_bound(s@) >= u64::MAX);
                assert(s@ == text@);
            }
            return false;
        }
        i = i + 1;
    }
    proof {
        assert(s@.take(i as int) =~= s@);
    }
    true
}

/// Calls `humantime::parse_duration` and splits the `Duration` it returns into
/// seconds and subsecond nanoseconds. The result is named `humantime_duration`
/// of the text and nothing more is claimed of it. The `requires` keeps out the
/// texts on which `parse_duration` could panic (see `duration_text_admissible`).
#[verifier::external_body]
fn parse_duration(text: &str) -> (r: Option<(u64, u32)>)
    requires
        duration_text_admissible(text@),
    ensures
        r == humantime_duration(text@),
{
    match humantime::parse_duration(text) {
        Ok(d) => Some((d.as_secs(), d.subsec_nanos())),
        Err(_) => None,
    }
}

/// The variable's value, when it is set and not empty.
pub open spec fn given(v: Option<String>) -> Option<Seq<char>> {
    match v {
        Some(s) => if s@.len() > 0 { Some(s@) } else { None },
        None => None,
    }
}

/// A text setting: the value when given, else the default.
pub open spec fn text_or(v: Option<String>, default: Seq<char>) -> Seq<char> {
    match given(v) {
        Some(s) => s,
        None => default,
    }
}

/// A numeric setting: the value when given and a valid `u64`, else the default.
pub open spec fn u64_or(v: Option<String>, default: u64) -> u64 {
    match given(v) {
        Some(s) => match parse_u64_spec(s) {
            Some(n) => n,
            None => default,
        },
        None => default,
    }
}

/// A duration setting: the value when given and accepted by humantime, else
/// the default.
pub open spec fn timeout_or(v: Option<String>, default: Timeout) -> Timeout {
    match given(v) {
        Some(s) => match humantime_duration(s) {
            Some(p) => Timeout { secs: p.0, nanos: p.1 },
            None => default,
        },
        None => default,
    }
}

fn env_or(v: &Option<String>, default: &str) -> (r: String)
    ensures
        r@ == text_or(*v, default@),
{
    match v {
        Some(s) => {
            if !s.as_str().is_empty() {
                s.clone()
            } else {
                default.to_owned()
            }
        },
        None => default.to_owned(),
    }
}

fn env_u64_or(v: &Option<String>, default: u64) -> (r: u64)
    ensures
        r == u64_or(*v, default),
{
    match v {
        Some(s) => {
            if !s.as_str().is_empty() {
                match parse_u64(&chars_of(s.as_str())) {
                    Some(n) => n,
                    None => default,
                }
            } else {
                default
            }
        },
        None => default,
    }
}

/// A duration setting from what humantime made of its text: the parsed span,
/// or the default when the text was not a duration.
pub fn timeout_from(parsed: Option<(u64, u32)>, default: Timeout) -> (r: Timeout)
    ensures
        r == match parsed {
            Some(p) => Timeout { secs: p.0, nanos: p.1 },
            None => default,
        },
{
    match parsed {
        Some(p) => Timeout { secs: p.0, nanos: p.1 },
        None => default,
    }
}

/// A duration variable whose text `humantime` may be called on (or that is
/// unset).
pub open spec fn duration_var_admissible(v: Option<String>) -> bool {
    match v {
        Some(s) => duration_text_admissible(s@),
        None => true,
    }
}

fn env_duration_or(v: &Option<String>, default: Timeout) -> (r: Timeout)
    requires
        duration_var_admissible(*v),
    ensures
        r == timeout_or(*v, default),
{
    match v {
        Some(s) => {
            if !s.as_str().is_empty() {
                timeout_from(parse_duration(s.as_str()), default)
            } else {
                default
            }
        },
        None => default,
    }
}

impl Config {
    /// Builds the configuration from the environment's values, falling back
    /// to the defaults whenever a value is unset, empty, or fails to parse.
    /// The two duration texts must be ones `humantime` may be called on
    /// (`duration_text_admissible`): it can panic on others, so the caller
    /// that reads the environment treats those as unparseable.
    pub fn from_env(env: &EnvVars) -> (r: Config)
        requires
            duration_var_admissible(env.upstream_timeout),
            duration_var_admissible(env.shutdown_timeout),
        ensures
            r.listen@ == text_or(env.listen, DEFAULT_LISTEN@),
            r.size_limit == u64_or(env.size_limit, DEFAULT_SIZE_LIMIT),
            r.buffer_size == u64_or(env.buffer_size, DEFAULT_BUFFER_SIZE) as usize,
            r.upstream_timeout == timeout_or(
                env.upstream_timeout,
                Timeout { secs: DEFAULT_UPSTREAM_TIMEOUT_SECS, nanos: 0 },
            ),
            r.shutdown_timeout == timeout_or(
                env.shutdown_timeout,
                Timeout { secs: DEFAULT_SHUTDOWN_TIMEOUT_SECS, nanos: 0 },
            ),
    {
        Config {
            listen: env_or(&env.listen, DEFAULT_LISTEN),
            size_limit: env_u64_or(&env.size_limit, DEFAULT_SIZE_LIMIT),
            buffer_size: env_u64_or(&env.buffer_size, DEFAULT_BUFFER_SIZE) as usize,
            upstream_timeout: env_duration_or(
                &env.upstream_timeout,
                Timeout::from_secs(DEFAULT_UPSTREAM_TIMEOUT_SECS),
            ),
            shutdown_timeout: env_duration_or(
                &env.shutdown_timeout,
                Timeout::from_secs(DEFAULT_SHUTDOWN_TIMEOUT_SECS),
            ),
        }
    }
}

/// The socket address to bind for a listen setting: one that begins with `:`
/// (a port alone) binds all interfaces, `0.0.0.0` before it.
pub fn bind_address(listen: &str) -> (r: String)
    ensures
        r@ == if listen@.len() > 0 && listen@[0] == ':' { "0.0.0.0"@ + listen@ } else { listen@ },
{
    let l = chars_of(listen);
    if l.len() > 0 && l[0] == ':' {
        string_of(&concat(&chars_of("0.0.0.0"), &l))
    } else {
        listen.to_owned()
    }
}

/// A text setting that is given and not empty is taken exactly as it is,
/// whatever it starts with; an unset or empty one takes the default.
pub proof fn law_given_text_setting_is_taken_as_is(s: String, d: Seq<char>)
    ensures
        s@.len() > 0 ==> text_or(Some(s), d) == s@,
        s@.len() == 0 ==> text_or(Some(s), d) == d,
        text_or(None, d) == d,
{
}

/// A setting that is unset or empty takes its default.
pub proof fn law_unset_or_empty_takes_default(v: Option<String>, text: Seq<char>, n: u64, t: Timeout)
    requires
        v matches Some(s) ==> s@.len() == 0,
    ensures
        text_or(v, text) == text,
        u64_or(v, n) == n,
        timeout_or(v, t) == t,
{
}

/// A duration setting that humantime rejects takes its default, and one it
/// accepts takes the parsed span.
pub proof fn law_duration_setting(s: String, t: Timeout)
    requires
        s@.len() > 0,
    ensures
        humantime_duration(s@) is None ==> timeout_or(Some(s), t) == t,
        humantime_duration(s@) matches Some(p) ==> timeout_or(Some(s), t) == (Timeout {
            secs: p.0,
            nanos: p.1,
        }),
{
}

/// A numeric setting that does not parse as a `u64` takes its default, and one
/// that parses takes its value.
pub proof fn law_numeric_setting(s: String, n: u64)
    requires
        s@.len() > 0,
    ensures
        parse_u64_spec(s@) is None ==> u64_or(Some(s), n) == n,
        parse_u64_spec(s@) matches Some(m) ==> u64_or(Some(s), n) == m,
{
}

} // verus!
