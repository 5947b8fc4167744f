//! The load generator's decisions: which request counts it accepts, when the
//! health probe counts as passed, and the statistics of a finished run.
//!
//! A request's latency is measured from one instant taken just before the
//! whole batch is dispatched, not from the request's own send time; queueing
//! among sibling requests is therefore part of it.

use vstd::prelude::*;
use vstd::string::StrSliceExecFns;

verus! {

/// Smallest request count a run accepts.
pub const MIN_REQUESTS: usize = 1;

/// Largest request count a run accepts.
pub const MAX_REQUESTS: usize = 100;

/// Why the command line was refused.
#[derive(Debug, PartialEq, Eq, Structural)]
pub enum UsageError {
    /// Not exactly one argument after the program name.
    WrongArgumentCount,
    /// The argument is not a decimal numeral.
    NotANumber,
    /// The count lies outside the accepted range.
    OutOfRange,
}

pub open spec fn is_digit(c: char) -> bool {
    '0' <= c && c <= '9'
}

/// The digits of a numeral: an optional leading `+` is dropped.
pub open spec fn numeral_digits(s: Seq<char>) -> Seq<char> {
    if s.len() > 0 && s[0] == '+' {
        s.drop_first()
    } else {
        s
    }
}

/// `s` is a decimal numeral: an optional `+` and at least one digit.
pub open spec fn is_numeral(s: Seq<char>) -> bool {
    &&& numeral_digits(s).len() > 0
    &&& forall|i: int| 0 <= i < numeral_digits(s).len() ==> is_digit(#[trigger] numeral_digits(s)[i])
}

/// Value of a sequence of decimal digits.
pub open spec fn digits_value(d: Seq<char>) -> nat
    decreases d.len(),
{
    if d.len() == 0 {
        0
    } else {
        digits_value(d.drop_last()) * 10 + (d.last() as nat - '0' as nat) as nat
    }
}

/// Value of a decimal numeral.
pub open spec fn numeral_value(s: Seq<char>) -> nat {
    digits_value(numeral_digits(s))
}

/// What the command line `args` (program name first) asks for.
pub open spec fn request_count_of(args: Seq<Seq<char>>) -> Result<usize, UsageError> {
    if args.len() != 2 {
        Err(UsageError::WrongArgumentCount)
    } else if !is_numeral(args[1]) {
        Err(UsageError::NotANumber)
    } else if numeral_value(args[1]) < MIN_REQUESTS || numeral_value(args[1]) > MAX_REQUESTS {
        Err(UsageError::OutOfRange)
    } else {
        Ok(numeral_value(args[1]) as usize)
    }
}

proof fn lemma_capped_step(a: nat, c: nat, d: nat)
    requires
        d <= 9,
        c == if a > 101 { 101 } else { a },
    ensures
        (if c * 10 + d > 101 { 101 } else { c * 10 + d }) == (if a * 10 + d > 101 {
            101
        } else {
            a * 10 + d
        }),
{
    if a > 101 {
        assert(a * 10 + d > 101) by (nonlinear_arith)
            requires
                a > 101,
        ;
    }
}

/// Value of the decimal numeral `s`, capped at 101, or None when `s` is not
/// a numeral.
fn parse_capped(s: &str) -> (r: Option<usize>)
    ensures
        r is None <==> !is_numeral(s@),
        r matches Some(v) ==> v == if numeral_value(s@) > 101 {
            101
        } else {
            numeral_value(s@)
        },
{
    let n = s.unicode_len();
    let mut start: usize = 0;
    if n > 0 && s.get_char(0) == '+' {
        start = 1;
    }
    let ghost d = numeral_digits(s@);
    assert(d == s@.subrange(start as int, n as int));
    if start == n {
        return None;
    }
    let mut acc: usize = 0;
    let mut i: usize = start;
    while i < n
        invariant
            start <= i <= n,
            n == s@.len(),
            d == s@.subrange(start as int, n as int),
            d == numeral_digits(s@),
            forall|k: int| 0 <= k < i - start ==> is_digit(#[trigger] d[k]),
            acc == if digits_value(d.take(i - start)) > 101 {
                101
            } else {
                digits_value(d.take(i - start))
            },
        decreases n - i,
    {
        let c = s.get_char(i);
        if c < '0' || c > '9' {
            assert(d[i - start] == c);
            assert(!is_digit(numeral_digits(s@)[i - start]));
            return None;
        }
        let digit: usize = (c as u32 - '0' as u32) as usize;
        proof {
            let t = d.take(i - start + 1);
            assert(t.drop_last() == d.take(i - start));
            assert(t.last() == c);
            lemma_capped_step(digits_value(d.take(i - start)), acc as nat, digit as nat);
        }
        let next: usize = acc * 10 + digit;
        acc = if next > 101 { 101 } else { next };
        i = i + 1;
    }
    assert(d.take(n - start) == d);
    Some(acc)
}

/// The request count that the command line `args` (program name first) asks
/// for, or why it is refused.
pub fn parse_request_count(args: &Vec<String>) -> (r: Result<usize, UsageError>)
    ensures
        r == request_count_of(args@.map_values(|a: String| a@)),
{
    let ghost views = args@.map_values(|a: String| a@);
    if args.len() != 2 {
        return Err(UsageError::WrongArgumentCount);
    }
    assert(views[1] == args@[1]@);
    match parse_capped(args[1].as_str()) {
        None => Err(UsageError::NotANumber),
        Some(v) => {
            if v < MIN_REQUESTS || v > MAX_REQUESTS {
                Err(UsageError::OutOfRange)
            } else {
                Ok(v)
            }
        },
    }
}

/// An HTTP status code is a success when it lies in 200..=299.
pub open spec fn is_success_code(code: u16) -> bool {
    200 <= code <= 299
}

/// Whether a status code reports success.
pub fn is_success_status(code: u16) -> (r: bool)
    ensures
        r == is_success_code(code),
{
    200 <= code && code <= 299
}

/// Whether the health probe passed: it got a response (`Some` status code)
/// and that status reports success.
pub fn probe_passed(status: Option<u16>) -> (r: bool)
    ensures
        r == (status matches Some(code) && is_success_code(code)),
{
    match status {
        Some(code) => is_success_status(code),
        None => false,
    }
}

/// How one dispatched work request ended.
pub enum RequestOutcome {
    /// The exchange completed; `latency_nanos` is the time from the batch's
    /// start instant to its completion, in nanoseconds.
    Success { latency_nanos: u64 },
    /// The exchange failed with a transport error.
    Failure { cause: String },
}

/// Minimum, maximum and average of the latencies of the successful requests.
#[derive(Debug, Clone, Copy, PartialEq, Eq, Structural)]
pub struct LatencySummary {
    pub min_nanos: u64,
    pub max_nanos: u64,
    pub average_nanos: u64,
}

/// Statistics of one finished run.
#[derive(Debug, Clone, Copy, PartialEq, Eq, Structural)]
pub struct RunStatistics {
    /// Requests dispatched.
    pub total: usize,
    /// Requests that completed.
    pub succeeded: usize,
    /// Requests that failed.
    pub failed: usize,
    /// Latency summary, None when no request completed.
    pub latency: Option<LatencySummary>,
}

/// Latencies of the successful outcomes, in order.
pub open spec fn success_latencies(s: Seq<RequestOutcome>) -> Seq<u64>
    decreases s.len(),
{
    if s.len() == 0 {
        Seq::empty()
    } else {
        let rest = success_latencies(s.drop_last());
        match s.last() {
            RequestOutcome::Success { latency_nanos } => rest.push(latency_nanos),
            RequestOutcome::Failure { .. } => rest,
        }
    }
}

pub open spec fn latency_sum(l: Seq<u64>) -> nat
    decreases l.len(),
{
    if l.len() == 0 {
        0
    } else {
        latency_sum(l.drop_last()) + l.last() as nat
    }
}

pub open spec fn is_least(m: u64, l: Seq<u64>) -> bool {
    &&& forall|i: int| 0 <= i < l.len() ==> m <= #[trigger] l[i]
    &&& exists|i: int| 0 <= i < l.len() && l[i] == m
}

pub open spec fn is_greatest(m: u64, l: Seq<u64>) -> bool {
    &&& forall|i: int| 0 <= i < l.len() ==> #[trigger] l[i] <= m
    &&& exists|i: int| 0 <= i < l.len() && l[i] == m
}

/// The statistics that `outcomes` determine.
pub open spec fn statistics_match(r: RunStatistics, outcomes: Seq<RequestOutcome>) -> bool {
    let l = success_latencies(outcomes);
    &&& r.total == outcomes.len()
    &&& r.succeeded == l.len()
    &&& r.failed == outcomes.len() - l.len()
    &&& (l.len() == 0 <==> r.latency is None)
    &&& (r.latency matches Some(sm) ==> {
        &&& is_least(sm.min_nanos, l)
        &&& is_greatest(sm.max_nanos, l)
        &&& sm.average_nanos == latency_sum(l) / l.len()
    })
}

proof fn lemma_success_latencies_len(s: Seq<RequestOutcome>)
    ensures
        success_latencies(s).len() <= s.len(),
    decreases s.len(),
{
    if s.len() > 0 {
        lemma_success_latencies_len(s.drop_last());
    }
}

proof fn lemma_sum_bound(l: Seq<u64>)
    ensures
        latency_sum(l) <= l.len() * (u64::MAX as nat),
    decreases l.len(),
{
    if l.len() > 0 {
        lemma_sum_bound(l.drop_last());
        let k = (l.len() - 1) as nat;
        assert(k * (u64::MAX as nat) + (u64::MAX as nat) == l.len() * (u64::MAX as nat))
            by (nonlinear_arith)
            requires
                k + 1 == l.len(),
        ;
    }
}

proof fn lemma_push_extremes(l: Seq<u64>, lo: u64, hi: u64, x: u64)
    requires
        l.len() > 0 ==> is_least(lo, l) && is_greatest(hi, l),
    ensures
        is_least(if l.len() == 0 || x < lo { x } else { lo }, l.push(x)),
        is_greatest(if l.len() == 0 || x > hi { x } else { hi }, l.push(x)),
{
    let p = l.push(x);
    let n = l.len() as int;
    assert(p[n] == x);
    assert forall|i: int| 0 <= i < n implies p[i] == l[i] by {}
    if l.len() > 0 {
        let a = choose|i: int| 0 <= i < n && l[i] == lo;
        let b = choose|i: int| 0 <= i < n && l[i] == hi;
        assert(p[a] == lo);
        assert(p[b] == hi);
    }
}

/// Aggregates the outcomes of a run: how many completed and how many failed,
/// and, over the completed ones, the least, greatest and average latency
/// (the sum divided by their number, rounded down). A run in which nothing
/// completed has no latency summary.
pub fn aggregate(outcomes: &Vec<RequestOutcome>) -> (r: RunStatistics)
    ensures
        statistics_match(r, outcomes@),
{
    let n = outcomes.len();
    let mut succeeded: usize = 0;
    let mut sum: u128 = 0;
    let mut lo: u64 = 0;
    let mut hi: u64 = 0;
    let mut i: usize = 0;
    while i < n
        invariant
            n == outcomes@.len(),
            i <= n,
            succeeded as nat == success_latencies(outcomes@.take(i as int)).len(),
            sum as nat == latency_sum(success_latencies(outcomes@.take(i as int))),
            succeeded > 0 ==> is_least(lo, success_latencies(outcomes@.take(i as int))),
            succeeded > 0 ==> is_greatest(hi, success_latencies(outcomes@.take(i as int))),
        decreases n - i,
    {
        let ghost prev = success_latencies(outcomes@.take(i as int));
        proof {
            assert(outcomes@.take(i + 1).drop_last() == outcomes@.take(i as int));
            assert(outcomes@.take(i + 1).last() == outcomes@[i as int]);
            lemma_success_latencies_len(outcomes@.take(i as int));
            lemma_sum_bound(prev);
        }
        match &outcomes[i] {
            RequestOutcome::Success { latency_nanos } => {
                let x = *latency_nanos;
                proof {
                    lemma_push_extremes(prev, lo, hi, x);
                    assert(sum + x <= (i + 1) * (u64::MAX as nat)) by (nonlinear_arith)
                        requires
                            sum <= prev.len() * (u64::MAX as nat),
                            prev.len() <= i,
                            x <= u64::MAX,
                    ;
                    assert((i + 1) * (u64::MAX as nat) <= u128::MAX) by (nonlinear_arith)
                        requires
                            i < usize::MAX,
                    ;
                    assert(prev.push(x).drop_last() == prev);
                }
                if succeeded == 0 || x < lo {
                    lo = x;
                }
                if succeeded == 0 || x > hi {
                    hi = x;
                }
                sum = sum + x as u128;
                succeeded = succeeded + 1;
            },
            RequestOutcome::Failure { .. } => {},
        }
        i = i + 1;
    }
    assert(outcomes@.take(n as int) == outcomes@);
    let ghost l = success_latencies(outcomes@);
    proof {
        lemma_success_latencies_len(outcomes@);
    }
    let latency = if succeeded == 0 {
        None
    } else {
        proof {
            lemma_sum_bound(l);
            assert((sum as nat) / (succeeded as nat) <= u64::MAX) by (nonlinear_arith)
                requires
                    sum <= succeeded * (u64::MAX as nat),
                    succeeded > 0,
            ;
        }
        let average = (sum / succeeded as u128) as u64;
        Some(LatencySummary { min_nanos: lo, max_nanos: hi, average_nanos: average })
    };
    RunStatistics { total: n, succeeded, failed: n - succeeded, latency }
}

/// Every dispatched request yields exactly one outcome, so the completed and
/// the failed requests of a run add up to the number dispatched.
pub proof fn lemma_outcomes_account_for_run(r: RunStatistics, outcomes: Seq<RequestOutcome>)
    requires
        statistics_match(r, outcomes),
    ensures
        r.succeeded + r.failed == r.total,
        r.total == outcomes.len(),
{
    lemma_success_latencies_len(outcomes);
}

/// When every request of a run completed with the same latency, the least,
/// the greatest and the average latency coincide.
pub proof fn lemma_equal_latencies_summary(r: RunStatistics, outcomes: Seq<RequestOutcome>, t: u64)
    requires
        statistics_match(r, outcomes),
        outcomes.len() > 0,
        forall|i: int| 0 <= i < outcomes.len() ==> #[trigger] outcomes[i] == (RequestOutcome::Success { latency_nanos: t }),
    ensures
        r.latency == Some(LatencySummary { min_nanos: t, max_nanos: t, average_nanos: t }),
{
    lemma_all_success(outcomes, t);
    let l = success_latencies(outcomes);
    let sm = r.latency.unwrap();
    let a = choose|i: int| 0 <= i < l.len() && l[i] == sm.min_nanos;
    let b = choose|i: int| 0 <= i < l.len() && l[i] == sm.max_nanos;
    assert(l[a] == t && l[b] == t);
    assert(latency_sum(l) / l.len() == t as nat) by (nonlinear_arith)
        requires
            latency_sum(l) == l.len() * (t as nat),
            l.len() > 0,
    ;
}

proof fn lemma_all_success(outcomes: Seq<RequestOutcome>, t: u64)
    requires
        forall|i: int| 0 <= i < outcomes.len() ==> #[trigger] outcomes[i] == (RequestOutcome::Success { latency_nanos: t }),
    ensures
        success_latencies(outcomes).len() == outcomes.len(),
        forall|i: int| 0 <= i < outcomes.len() ==> #[trigger] success_latencies(outcomes)[i] == t,
        latency_sum(success_latencies(outcomes)) == outcomes.len() * (t as nat),
    decreases outcomes.len(),
{
    if outcomes.len() > 0 {
        let p = outcomes.drop_last();
        assert forall|i: int| 0 <= i < p.len() implies #[trigger] p[i] == (RequestOutcome::Success { latency_nanos: t }) by {
            assert(p[i] == outcomes[i]);
        }
        lemma_all_success(p, t);
        assert(outcomes.last() == outcomes[outcomes.len() - 1]);
        let l = success_latencies(outcomes);
        assert(l.drop_last() == success_latencies(p));
        assert(l.len() * (t as nat) == p.len() * (t as nat) + t) by (nonlinear_arith)
            requires
                l.len() == p.len() + 1,
        ;
    }
}

} // verus!
