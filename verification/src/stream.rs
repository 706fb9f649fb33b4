use vstd::prelude::*;

use crate::params::{
    full_observation_list, full_observation_params, lemma_observation_lists_distinct,
    lemma_param_list_ids_distinct, no_duplicates, param_list_ids, parse_param_list,
    realtime_observation_list, realtime_observation_params, ParamList, ParamListError,
};
use crate::text::{ascii_lower, lower_range_eq, trim, trim_bounds};

verus! {

/// What a stream configuration message holds, field by field: `enabled` as
/// a boolean, `timeout_ms` and `interval_ms` as unsigned integers,
/// `profile` as a text, each where the message has it in that form, and
/// the parameter ids from `params` (or, where that is absent, `param_ids`).
pub struct StreamMessage {
    pub enabled: Option<bool>,
    pub timeout_ms: Option<u64>,
    pub interval_ms: Option<u64>,
    pub params: Option<ParamList>,
    pub profile: Option<String>,
}

/// The periodic reading of RobStride parameters that the gateway streams.
#[derive(Debug)]
pub struct RobstrideParamStream {
    pub enabled: bool,
    /// The stream reads once every `tick_div` control ticks.
    pub tick_div: u64,
    pub tick_counter: u64,
    pub timeout_ms: u64,
    pub params: Vec<u16>,
}

/// `v` brought into `lo..=hi`, as `Ord::clamp` does.
pub open spec fn clamp(v: int, lo: int, hi: int) -> int {
    if v < lo {
        lo
    } else if v > hi {
        hi
    } else {
        v
    }
}

/// The greater of `a` and `b`.
pub open spec fn max(a: int, b: int) -> int {
    if a < b {
        b
    } else {
        a
    }
}

/// `a / b` rounded up.
pub open spec fn ceil_div(a: int, b: int) -> int {
    if a % b == 0 {
        a / b
    } else {
        a / b + 1
    }
}

/// `a * b`, or `u64::MAX` where the product does not fit.
pub open spec fn saturating_product(a: u64, b: u64) -> int {
    if a * b > u64::MAX {
        u64::MAX as int
    } else {
        a * b
    }
}

/// The value of `o`, or `d`.
pub open spec fn or_default<T>(o: Option<T>, d: T) -> T {
    match o {
        Some(v) => v,
        None => d,
    }
}

/// The text of a profile.
pub open spec fn profile_view(profile: Option<String>) -> Option<Seq<char>> {
    match profile {
        Some(p) => Some(p@),
        None => None,
    }
}

/// Whether a profile, trimmed and taken to ASCII lower case, asks for the
/// full observation list: `full`, `all`, `observed` or `observation`.
pub open spec fn is_full_profile(profile: Option<Seq<char>>) -> bool {
    match profile {
        Some(p) => {
            let n = ascii_lower(trim(p));
            n == "full"@ || n == "all"@ || n == "observed"@ || n == "observation"@
        },
        None => false,
    }
}

/// The ids that a profile selects.
pub open spec fn profile_params(profile: Option<Seq<char>>) -> Seq<u16> {
    if is_full_profile(profile) {
        full_observation_list()
    } else {
        realtime_observation_list()
    }
}

/// The read interval, in milliseconds: the one requested, else the current
/// period, brought into `max(dt_ms, 1)..=10000`.
pub open spec fn stream_interval(tick_div: u64, requested: Option<u64>, dt_ms: u64) -> int {
    let current = max(saturating_product(tick_div, dt_ms), dt_ms as int);
    let chosen = match requested {
        Some(v) => v as int,
        None => current,
    };
    clamp(chosen, max(dt_ms as int, 1), 10000)
}

/// The number of control ticks of `dt_ms` each that the interval takes, at least one.
pub open spec fn ticks_for(interval: int, dt_ms: u64) -> int {
    max(ceil_div(interval, max(dt_ms as int, 1)), 1)
}

/// `ceil_div(a, d)` whole steps of `d` reach `a`, one fewer do not, and no
/// more steps than `a` are needed.
proof fn lemma_ceil_div_bounds(a: int, d: int)
    requires
        1 <= a,
        1 <= d,
    ensures
        ceil_div(a, d) * d >= a,
        (ceil_div(a, d) - 1) * d < a,
        1 <= ceil_div(a, d) <= a,
{
    assert(a == d * (a / d) + a % d && 0 <= a % d < d) by (nonlinear_arith)
        requires
            1 <= d,
    ;
    assert(a / d <= a && a / d >= 0) by (nonlinear_arith)
        requires
            1 <= d,
            1 <= a,
    ;
    if a % d == 0 {
        assert(a / d >= 1) by (nonlinear_arith)
            requires
                a == d * (a / d),
                1 <= a,
                1 <= d,
        ;
        assert(ceil_div(a, d) * d >= a && (ceil_div(a, d) - 1) * d < a) by (nonlinear_arith)
            requires
                a == d * (a / d),
                ceil_div(a, d) == a / d,
                1 <= d,
        ;
    } else {
        assert(a / d < a) by (nonlinear_arith)
            requires
                a == d * (a / d) + a % d,
                0 < a % d < d,
                1 <= d,
                a / d >= 0,
        ;
        assert(ceil_div(a, d) * d >= a && (ceil_div(a, d) - 1) * d < a) by (nonlinear_arith)
            requires
                a == d * (a / d) + a % d,
                0 < a % d < d,
                ceil_div(a, d) == a / d + 1,
                1 <= d,
        ;
    }
}

/// The read period is the smallest whole number of control ticks that
/// lasts at least the read interval.
pub proof fn lemma_ticks_cover_interval(interval: int, dt_ms: u64)
    requires
        1 <= interval,
    ensures
        ticks_for(interval, dt_ms) * max(dt_ms as int, 1) >= interval,
        (ticks_for(interval, dt_ms) - 1) * max(dt_ms as int, 1) < interval,
{
    lemma_ceil_div_bounds(interval, max(dt_ms as int, 1));
}

impl RobstrideParamStream {
    /// The bounds that the stream's settings keep: a period of 1 to 10000
    /// ticks, a read timeout of 20 to 1000 ms, and at least one parameter,
    /// none named twice.
    pub open spec fn wf(&self) -> bool {
        &&& 1 <= self.tick_div <= 10000
        &&& 20 <= self.timeout_ms <= 1000
        &&& self.params@.len() > 0
        &&& no_duplicates(self.params@)
    }
}

impl Default for RobstrideParamStream {
    /// A disabled stream of the realtime observation list, read every 50
    /// ticks with a timeout of 80 ms.
    fn default() -> (s: Self)
        ensures
            s.enabled == false,
            s.tick_div == 50,
            s.tick_counter == 0,
            s.timeout_ms == 80,
            s.params@ == realtime_observation_list(),
            s.wf(),
    {
        proof {
            lemma_observation_lists_distinct();
        }
        RobstrideParamStream {
            enabled: false,
            tick_div: 50,
            tick_counter: 0,
            timeout_ms: 80,
            params: realtime_observation_params(),
        }
    }
}

/// Whether a profile asks for the full observation list.
fn full_profile_requested(profile: &Option<String>) -> (r: bool)
    ensures
        r == is_full_profile(profile_view(*profile)),
{
    match profile {
        None => false,
        Some(p) => {
            let s = p.as_str();
            let (a, b) = trim_bounds(s, 0, s.unicode_len());
            proof {
                assert(s@.subrange(0, s@.len() as int) =~= s@);
            }
            lower_range_eq(s, a, b, "full") || lower_range_eq(s, a, b, "all")
                || lower_range_eq(s, a, b, "observed") || lower_range_eq(s, a, b, "observation")
        },
    }
}

impl RobstrideParamStream {
    /// Applies a configuration message, for a control tick of `dt_ms`
    /// milliseconds. The settings are taken in whatever the ids bring; the
    /// ids replace the parameters only where they are accepted.
    pub fn apply_message(&mut self, msg: &StreamMessage, dt_ms: u64) -> (r: Result<(), ParamListError>)
        requires
            dt_ms <= 10000,
        ensures
            final(self).enabled == or_default(msg.enabled, false),
            final(self).timeout_ms == clamp(or_default(msg.timeout_ms, old(self).timeout_ms) as int, 20, 1000),
            final(self).tick_div == ticks_for(stream_interval(old(self).tick_div, msg.interval_ms, dt_ms), dt_ms),
            final(self).tick_counter == 0,
            match param_list_ids(msg.params) {
                Ok(Some(ids)) => r is Ok && final(self).params@ == ids,
                Ok(None) => r is Ok && final(self).params@ == profile_params(profile_view(msg.profile)),
                Err(e) => r matches Err(x) && x@ == e && final(self).params@ == old(self).params@,
            },
            r is Ok ==> final(self).wf(),
            old(self).wf() ==> final(self).wf(),
    {
        proof {
            lemma_observation_lists_distinct();
            lemma_param_list_ids_distinct(msg.params);
        }
        self.enabled = match msg.enabled {
            Some(b) => b,
            None => false,
        };
        let timeout = match msg.timeout_ms {
            Some(t) => t,
            None => self.timeout_ms,
        };
        self.timeout_ms = if timeout < 20 {
            20
        } else if timeout > 1000 {
            1000
        } else {
            timeout
        };
        let dt1: u64 = if dt_ms > 1 { dt_ms } else { 1 };
        let product: u64 = match self.tick_div.checked_mul(dt_ms) {
            Some(p) => p,
            None => u64::MAX,
        };
        let current: u64 = if product < dt_ms { dt_ms } else { product };
        let requested: u64 = match msg.interval_ms {
            Some(v) => v,
            None => current,
        };
        let interval: u64 = if requested < dt1 {
            dt1
        } else if requested > 10000 {
            10000
        } else {
            requested
        };
        let quotient = interval / dt1;
        proof {
            lemma_ceil_div_bounds(interval as int, dt1 as int);
        }
        let ticks = if interval % dt1 != 0 { quotient + 1 } else { quotient };
        self.tick_div = if ticks > 1 { ticks } else { 1 };
        self.tick_counter = 0;
        match parse_param_list(&msg.params) {
            Err(e) => {
                return Err(e);
            },
            Ok(Some(ids)) => {
                self.params = ids;
            },
            Ok(None) => {
                self.params = if full_profile_requested(&msg.profile) {
                    full_observation_params()
                } else {
                    realtime_observation_params()
                };
            },
        }
        Ok(())
    }
}

/// Where a message names no ids, its profile chooses between the two
/// observation lists: the full list exactly when the profile, trimmed and
/// taken to ASCII lower case, is `full`, `all`, `observed` or
/// `observation`; the realtime list for any other profile (`realtime`
/// among them) and where there is no profile.
pub proof fn lemma_profile_chooses_observation_list(profile: Option<Seq<char>>)
    ensures
        profile_params(profile) == full_observation_list() <==> (profile matches Some(t)
            && (ascii_lower(trim(t)) == "observation"@ || ascii_lower(trim(t)) == "observed"@
            || ascii_lower(trim(t)) == "all"@ || ascii_lower(trim(t)) == "full"@)),
        profile_params(profile) == realtime_observation_list() <==> !(profile matches Some(t)
            && (ascii_lower(trim(t)) == "observation"@ || ascii_lower(trim(t)) == "observed"@
            || ascii_lower(trim(t)) == "all"@ || ascii_lower(trim(t)) == "full"@)),
{
    assert(full_observation_list().len() != realtime_observation_list().len());
}

/// `clamp` gives a value within its bounds, and the value itself where it
/// already lies within them.
pub proof fn lemma_clamp(v: int, lo: int, hi: int)
    requires
        lo <= hi,
    ensures
        lo <= clamp(v, lo, hi) <= hi,
        lo <= v <= hi ==> clamp(v, lo, hi) == v,
        v < lo ==> clamp(v, lo, hi) == lo,
        v > hi ==> clamp(v, lo, hi) == hi,
{
}

/// A requested interval that is at least one control tick long and at most
/// 10000 ms is the read interval as asked.
pub proof fn lemma_requested_interval_is_kept(tick_div: u64, v: u64, dt_ms: u64)
    requires
        max(dt_ms as int, 1) <= v <= 10000,
    ensures
        stream_interval(tick_div, Some(v), dt_ms) == v,
{
}

/// Where a message asks for no interval, a period of whole ticks that lasts
/// at least one tick and at most 10000 ms stays as it was.
pub proof fn lemma_missing_interval_keeps_period(tick_div: u64, dt_ms: u64)
    requires
        1 <= dt_ms,
        1 <= tick_div,
        tick_div * dt_ms <= 10000,
    ensures
        ticks_for(stream_interval(tick_div, None, dt_ms), dt_ms) == tick_div,
{
    assert(tick_div * dt_ms >= dt_ms) by (nonlinear_arith)
        requires
            1 <= tick_div,
            1 <= dt_ms,
    ;
    let a = tick_div * dt_ms;
    assert(a % (dt_ms as int) == 0 && a / (dt_ms as int) == tick_div) by (nonlinear_arith)
        requires
            a == tick_div * dt_ms,
            1 <= dt_ms,
    ;
    assert(stream_interval(tick_div, None, dt_ms) == a);
}
} // verus!
