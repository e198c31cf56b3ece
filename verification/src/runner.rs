//! The rate-paced runner: the parameters of a run, the chain of scenarios
//! as a state machine from outcomes to the next step, and the reports.

use crate::config;
use crate::config::RunnerConfig;
use crate::error::Error;
use crate::http_api::{HttpError, HttpRequest, HttpResponse, TimeSpan};
use crate::scenario::{
    buildable, extract_all, listed, request_matches, request_outcome, response_failure,
    scenario_built_from, Global, Scenario, Verdict,
};
use crate::script::{ran, ContextView, Local, ScriptContext};
use crate::stats::{wrap32, wrap64, ApiStats, ApiStatsView};
use crate::store::{absorb, bindings, merge, variable_views};
use crate::text::{chars_of, matches_at, occurs_at, slice_of, string_of};
use crate::variable::{ValueView, Variable};
use vstd::arithmetic::div_mod::{lemma_basic_div, lemma_fundamental_div_mod};
use vstd::prelude::*;
use vstd::string::StringExecFns;

verus! {

/// `a / b`, rounded up.
pub open spec fn ceil_div(a: nat, b: nat) -> nat {
    if b == 0 {
        0
    } else if a % b == 0 {
        a / b
    } else {
        a / b + 1
    }
}

/// The rate of chain starts for a rate of requests: one chain sends one
/// request per scenario. At least one chain starts per second.
pub open spec fn chain_rate(target_rps: nat, scenario_count: nat) -> nat {
    if scenario_count == 0 || target_rps / scenario_count == 0 {
        1
    } else {
        target_rps / scenario_count
    }
}

/// The batch size where none is configured: a two-hundredth of the rate
/// of chain starts, and at least one.
pub open spec fn auto_batch(target_tps: nat) -> nat {
    if target_tps / 200 == 0 {
        1
    } else {
        target_tps / 200
    }
}

/// The time between two ticks in nanoseconds: a second divided by the
/// number of batches per second, rounded down.
pub open spec fn tick_nanos(batch_size: nat, target_tps: nat) -> nat {
    if target_tps == 0 {
        0
    } else {
        batch_size * 1_000_000_000 / target_tps
    }
}

/// A span of time in nanoseconds.
pub open spec fn span_nanos(span: TimeSpan) -> nat {
    (span.secs * 1_000_000_000 + span.nanos) as nat
}

/// The number of chain starts that a rate asks for over a duration in
/// nanoseconds, rounded up to a whole chain.
pub open spec fn chain_starts(target_tps: nat, nanos: nat) -> nat {
    ceil_div(target_tps * nanos, 1_000_000_000)
}

/// The parameters of a run, derived once from the configuration.
#[derive(Debug, PartialEq, Eq, Clone, Copy)]
pub struct RunParameter {
    pub target_rps: u32,
    pub target_tps: u32,
    pub batch_size: u32,
    pub interval: TimeSpan,
    /// The number of chain starts that the rate asks for over the whole
    /// duration.
    pub total_requests: u128,
    pub scenario_count: usize,
}

impl RunParameter {
    /// Whether the parameters allow a run: the rates, the batch size and
    /// the number of scenarios are at least one, and the chain starts are
    /// no more than a 32-bit rate gives over a 64-bit number of seconds.
    pub open spec fn well_formed(&self) -> bool {
        &&& self.target_tps >= 1
        &&& self.batch_size >= 1
        &&& self.scenario_count >= 1
        &&& self.total_requests <= 0x10_0000_0000_0000_0000_0000_0000
    }

    /// The number of ticks of the run: the chain starts divided by the
    /// batch size, rounded up.
    pub open spec fn iterations(&self) -> nat {
        ceil_div(self.total_requests as nat, self.batch_size as nat)
    }

    /// The number of requests that the run issues when every chain runs to
    /// its end: per tick a batch of chains, per chain one request for each
    /// scenario.
    pub open spec fn issued(&self) -> nat {
        (self.iterations() * self.batch_size * self.scenario_count) as nat
    }

    /// Derives the parameters of a run. There must be a scenario, and a
    /// configured batch size must be at least one.
    pub fn new(
        target_rps: u32,
        duration: TimeSpan,
        batch_size: Option<u32>,
        scenario_count: usize,
    ) -> (r: RunParameter)
        requires
            scenario_count >= 1,
            batch_size matches Some(b) ==> b >= 1,
        ensures
            r.well_formed(),
            r.target_rps == target_rps,
            r.target_tps == chain_rate(target_rps as nat, scenario_count as nat),
            r.batch_size == match batch_size {
                Some(b) => b as nat,
                None => auto_batch(r.target_tps as nat),
            },
            span_nanos(r.interval) == tick_nanos(r.batch_size as nat, r.target_tps as nat),
            r.interval.nanos < 1_000_000_000,
            r.interval.secs == tick_nanos(r.batch_size as nat, r.target_tps as nat)
                / 1_000_000_000,
            r.total_requests == chain_starts(r.target_tps as nat, span_nanos(duration)),
            duration.nanos == 0 ==> r.total_requests == r.target_tps * duration.secs,
            r.scenario_count == scenario_count,
    {
        let target_tps: u32 = if scenario_count > target_rps as usize {
            proof {
                lemma_basic_div(target_rps as int, scenario_count as int);
            }
            1
        } else {
            let quotient: u32 = target_rps / (scenario_count as u32);
            if quotient == 0 {
                1
            } else {
                quotient
            }
        };
        let batch_size: u32 = match batch_size {
            Some(b) => b,
            None => {
                let auto: u32 = target_tps / 200;
                if auto == 0 {
                    1
                } else {
                    auto
                }
            },
        };
        let nanos: u64 = batch_size as u64 * 1_000_000_000 / (target_tps as u64);
        let interval = TimeSpan {
            secs: nanos / 1_000_000_000,
            nanos: (nanos % 1_000_000_000) as u32,
        };
        let span: u128 = duration.secs as u128 * 1_000_000_000 + duration.nanos as u128;
        assert(target_tps * span <= 0xFFFF_FFFF * 0x4000_0000_0000_0000_0000_0000)
            by (nonlinear_arith)
            requires
                0 <= target_tps <= 0xFFFF_FFFF,
                0 <= span <= 0x4000_0000_0000_0000_0000_0000,
        ;
        let product: u128 = target_tps as u128 * span;
        let whole: u128 = product / 1_000_000_000;
        let total_requests: u128 = if product % 1_000_000_000 == 0 {
            whole
        } else {
            whole + 1
        };
        proof {
            if duration.nanos == 0 {
                let chains = target_tps as int * duration.secs as int;
                assert(product == chains * 1_000_000_000) by (nonlinear_arith)
                    requires
                        product == target_tps * span,
                        span == duration.secs * 1_000_000_000,
                        chains == target_tps * duration.secs,
                ;
            }
        }
        RunParameter {
            target_rps,
            target_tps,
            batch_size,
            interval,
            total_requests,
            scenario_count,
        }
    }

    /// The chains of a whole run fit in a `u128`.
    pub proof fn lemma_starts_fit(&self)
        requires
            self.well_formed(),
        ensures
            self.iterations() * self.batch_size <= self.total_requests + self.batch_size - 1,
            self.iterations() <= self.total_requests,
    {
        let batch = self.batch_size as int;
        let total = self.total_requests as int;
        lemma_fundamental_div_mod(total, batch);
        assert(batch * (total / batch) == (total / batch) * batch) by (nonlinear_arith);
        assert((total / batch + 1) * batch == (total / batch) * batch + batch) by (nonlinear_arith);
        assert(total / batch <= (total / batch) * batch) by (nonlinear_arith)
            requires
                batch >= 1,
                total / batch >= 0,
        ;
    }

    /// The number of ticks of the run.
    pub fn total_iterations(&self) -> (r: u128)
        requires
            self.well_formed(),
        ensures
            r == self.iterations(),
            r * self.batch_size <= self.total_requests + self.batch_size - 1,
    {
        let batch: u128 = self.batch_size as u128;
        let quotient: u128 = self.total_requests / batch;
        let rest: u128 = self.total_requests % batch;
        proof {
            self.lemma_starts_fit();
        }
        if rest == 0 {
            quotient
        } else {
            quotient + 1
        }
    }

    /// The number of requests that the run issues when every chain runs to
    /// its end; `None` where the number is larger than a `u128` holds.
    pub fn total_requests_issued(&self) -> (r: Option<u128>)
        requires
            self.well_formed(),
        ensures
            match r {
                Some(n) => n == self.issued(),
                None => self.issued() > u128::MAX,
            },
    {
        let iterations: u128 = self.total_iterations();
        let starts: u128 = iterations * (self.batch_size as u128);
        starts.checked_mul(self.scenario_count as u128)
    }
}

/// What one worker reports at the end of its run.
#[derive(Debug, PartialEq, Eq, Clone, Copy)]
pub struct RunReport {
    /// Successful requests per second, in thousandths.
    pub rps_milli: u64,
    pub elapsed: TimeSpan,
    /// The outcomes that were successes.
    pub success_count: u64,
    /// The outcomes that were errors.
    pub error_count: u64,
    /// The sum of the round-trip times in microseconds.
    pub total_rtt_micros: u64,
    /// The chains that ended because a script failed or a request could
    /// not be built.
    pub aborted_count: u64,
}

/// The reports of all workers taken together.
#[derive(Debug, PartialEq, Eq, Clone, Copy)]
pub struct AggregatedReport {
    /// The sum of the workers' rates, in thousandths of a request per
    /// second.
    pub total_rps_milli: u64,
    /// The longest time that a worker took.
    pub elapsed: TimeSpan,
    pub total_success: u64,
    pub total_error: u64,
    /// The sum of the round-trip times in microseconds.
    pub total_rtt_micros: u64,
    /// The chains that ended because a script failed or a request could
    /// not be built.
    pub total_aborted: u64,
}

/// The figures of the summary.
#[derive(Debug, PartialEq, Eq, Clone, Copy)]
pub struct Summary {
    /// Successful requests per second over all workers, in thousandths.
    pub total_rps_milli: u64,
    /// The share of successes among all outcomes in hundredths of a
    /// percent; `None` without an outcome.
    pub success_rate_centi_percent: Option<u64>,
    /// The average round-trip time of a success in microseconds; `None`
    /// without a success.
    pub average_rtt_micros: Option<u64>,
    /// The elapsed time in milliseconds.
    pub elapsed_millis: u64,
    /// The chains that ended because a script failed or a request could
    /// not be built.
    pub aborted: u64,
}

/// The sum of `a` and `b`, or the largest `u64` where the sum is larger.
pub open spec fn capped_sum(a: int, b: int) -> u64 {
    if a + b > u64::MAX {
        u64::MAX
    } else {
        (a + b) as u64
    }
}

/// Whether the span `a` is shorter than the span `b`.
pub open spec fn shorter(a: TimeSpan, b: TimeSpan) -> bool {
    a.secs < b.secs || (a.secs == b.secs && a.nanos < b.nanos)
}

fn capped_add(a: u64, b: u64) -> (r: u64)
    ensures
        r == capped_sum(a as int, b as int),
{
    if b > u64::MAX - a {
        u64::MAX
    } else {
        a + b
    }
}

impl AggregatedReport {
    /// The report of no worker.
    pub fn new() -> (r: AggregatedReport)
        ensures
            r == (AggregatedReport {
                total_rps_milli: 0,
                elapsed: TimeSpan { secs: 0, nanos: 0 },
                total_success: 0,
                total_error: 0,
                total_rtt_micros: 0,
                total_aborted: 0,
            }),
    {
        AggregatedReport {
            total_rps_milli: 0,
            elapsed: TimeSpan { secs: 0, nanos: 0 },
            total_success: 0,
            total_error: 0,
            total_rtt_micros: 0,
            total_aborted: 0,
        }
    }

    /// Takes in the report of one worker: rates, counts and round-trip
    /// times add up, each capped at the largest `u64`; the elapsed time is
    /// the longer of the two.
    pub fn add(&mut self, report: RunReport)
        ensures
            final(self).total_rps_milli == capped_sum(
                old(self).total_rps_milli as int,
                report.rps_milli as int,
            ),
            final(self).elapsed == if shorter(old(self).elapsed, report.elapsed) {
                report.elapsed
            } else {
                old(self).elapsed
            },
            final(self).total_success == capped_sum(
                old(self).total_success as int,
                report.success_count as int,
            ),
            final(self).total_error == capped_sum(
                old(self).total_error as int,
                report.error_count as int,
            ),
            final(self).total_rtt_micros == capped_sum(
                old(self).total_rtt_micros as int,
                report.total_rtt_micros as int,
            ),
            final(self).total_aborted == capped_sum(
                old(self).total_aborted as int,
                report.aborted_count as int,
            ),
    {
        self.total_rps_milli = capped_add(self.total_rps_milli, report.rps_milli);
        if self.elapsed.secs < report.elapsed.secs || (self.elapsed.secs == report.elapsed.secs
            && self.elapsed.nanos < report.elapsed.nanos) {
            self.elapsed = report.elapsed;
        }
        self.total_success = capped_add(self.total_success, report.success_count);
        self.total_error = capped_add(self.total_error, report.error_count);
        self.total_rtt_micros = capped_add(self.total_rtt_micros, report.total_rtt_micros);
        self.total_aborted = capped_add(self.total_aborted, report.aborted_count);
    }

    /// The figures of the summary.
    pub fn report(&self) -> (r: Summary)
        ensures
            r.total_rps_milli == self.total_rps_milli,
            r.aborted == self.total_aborted,
            r.success_rate_centi_percent == if self.total_success + self.total_error == 0
                || self.total_success + self.total_error > u64::MAX || self.total_success
                * 10000 > u64::MAX {
                None
            } else {
                Some((self.total_success * 10000 / (self.total_success + self.total_error)) as u64)
            },
            r.average_rtt_micros == if self.total_success == 0 {
                None
            } else {
                Some(self.total_rtt_micros / self.total_success)
            },
            r.elapsed_millis == capped_sum(
                capped_product(self.elapsed.secs as int, 1000) as int,
                (self.elapsed.nanos / 1_000_000) as int,
            ),
    {
        let outcomes_fit: bool = self.total_error <= u64::MAX - self.total_success;
        let rate: Option<u64> = if !outcomes_fit || self.total_success + self.total_error == 0
            || self.total_success > u64::MAX / 10000 {
            None
        } else {
            Some(self.total_success * 10000 / (self.total_success + self.total_error))
        };
        let average: Option<u64> = if self.total_success == 0 {
            None
        } else {
            Some(self.total_rtt_micros / self.total_success)
        };
        let whole: u64 = if self.elapsed.secs > u64::MAX / 1000 {
            u64::MAX
        } else {
            self.elapsed.secs * 1000
        };
        Summary {
            total_rps_milli: self.total_rps_milli,
            success_rate_centi_percent: rate,
            average_rtt_micros: average,
            elapsed_millis: capped_add(whole, (self.elapsed.nanos / 1_000_000) as u64),
            aborted: self.total_aborted,
        }
    }
}

/// The product of `a` and `b`, or the largest `u64` where the product is
/// larger.
pub open spec fn capped_product(a: int, b: int) -> u64 {
    if a * b > u64::MAX {
        u64::MAX
    } else {
        (a * b) as u64
    }
}

/// What travels with a request through dispatch and back: the position
/// of the scenario in the chain and the variables gathered so far.
#[derive(Debug)]
pub struct EventContext {
    pub scenario_id: usize,
    pub variables: Vec<Variable>,
}

/// What the runner hands to the dispatcher.
#[derive(Debug)]
pub enum Event {
    /// Send this request and bring its outcome back with this context.
    SendMessage(EventContext, HttpRequest),
    /// Close the connection.
    Terminate,
}

/// How a request ended.
#[derive(Debug)]
pub enum Outcome {
    Response(HttpResponse),
    TransportError(HttpError),
}

/// What follows for a chain.
#[derive(Debug)]
pub enum Step {
    /// Send this request for the chain.
    Send(EventContext, HttpRequest),
    /// The chain has run to its end.
    Completed,
    /// The chain ends here with this error.
    Errored(String),
    /// The chain ends here with this error, and so does the worker.
    Fatal(String),
}

/// Where a chain stands.
#[derive(Debug, PartialEq, Eq, Clone, Copy)]
pub enum ChainState {
    Starting,
    Awaiting(usize),
    Completed,
    Errored,
}

impl Step {
    /// Where the chain stands after this step.
    pub fn state(&self) -> (r: ChainState)
        ensures
            r == match *self {
                Step::Send(ctx, _) => ChainState::Awaiting(ctx.scenario_id),
                Step::Completed => ChainState::Completed,
                Step::Errored(_) => ChainState::Errored,
                Step::Fatal(_) => ChainState::Errored,
            },
    {
        match self {
            Step::Send(ctx, _) => ChainState::Awaiting(ctx.scenario_id),
            Step::Completed => ChainState::Completed,
            Step::Errored(_) => ChainState::Errored,
            Step::Fatal(_) => ChainState::Errored,
        }
    }
}

/// `s` without the slashes at its end.
pub open spec fn trim_slashes(s: Seq<char>) -> Seq<char>
    decreases s.len(),
{
    if s.len() > 0 && s.last() == '/' {
        trim_slashes(s.drop_last())
    } else {
        s
    }
}

/// `s` without `prefix` at its start, where it starts with it.
pub open spec fn strip_prefix(s: Seq<char>, prefix: Seq<char>) -> Option<Seq<char>> {
    if occurs_at(s, prefix, 0) {
        Some(s.subrange(prefix.len() as int, s.len() as int))
    } else {
        None
    }
}

/// The address to connect to for a base URL: the URL without the scheme
/// `http://` or `https://` at its start and without slashes at its end.
pub open spec fn address_of(url: Seq<char>) -> Seq<char> {
    trim_slashes(
        match strip_prefix(url, "http://"@) {
            Some(rest) => rest,
            None => match strip_prefix(url, "https://"@) {
                Some(rest) => rest,
                None => url,
            },
        },
    )
}

/// The address to connect to for a base URL.
pub fn target_address(url: &str) -> (r: String)
    ensures
        r@ == address_of(url@),
{
    let text = chars_of(url);
    let plain = chars_of("http://");
    let secure = chars_of("https://");
    let rest: Vec<char> = if matches_at(&text, &plain, 0) {
        slice_of(&text, plain.len(), text.len())
    } else if matches_at(&text, &secure, 0) {
        slice_of(&text, secure.len(), text.len())
    } else {
        assert(text@.subrange(0, text@.len() as int) == text@);
        slice_of(&text, 0, text.len())
    };
    let mut end: usize = rest.len();
    assert(rest@.take(rest@.len() as int) == rest@);
    while end > 0 && rest[end - 1] == '/'
        invariant
            end <= rest.len(),
            trim_slashes(rest@.take(end as int)) == trim_slashes(rest@),
        decreases end,
    {
        assert(rest@.take(end as int).drop_last() == rest@.take(end - 1));
        end -= 1;
    }
    assert(rest@.take(rest@.len() as int) == rest@);
    let trimmed = slice_of(&rest, 0, end);
    assert(rest@.subrange(0, end as int) == rest@.take(end as int));
    string_of(&trimmed)
}

/// The runner of one worker: the parameters and the scenarios of the run,
/// the variables, the counters and where the run stands.
pub struct Runner {
    pub param: RunParameter,
    pub target_address: String,
    pub first_scenario: Scenario,
    pub subsequent_scenarios: Vec<Scenario>,
    /// The global store of the worker, with the locals of the chain that
    /// is being worked on.
    pub context: ScriptContext,
    pub stats: ApiStats,
    /// The ticks so far.
    pub ticks: u128,
    /// The chains that the ticks have started.
    pub chains_started: u128,
    /// The requests that were handed out and whose outcome is not in yet.
    pub in_flight: u64,
    /// The outcomes so far.
    pub observed: u64,
    /// The outcomes that were successes.
    pub succeeded: u64,
    /// The outcomes that were errors.
    pub failed: u64,
    /// The chains that ended because a script failed or a request could
    /// not be built.
    pub aborted: u64,
}

/// The text of the error for a duration of no time at all.
pub open spec fn no_duration_message() -> Seq<char> {
    "Duration must not be zero"@
}

/// The text of the error for a configuration without a scenario.
pub open spec fn no_scenario_message() -> Seq<char> {
    "No scenario defined"@
}

/// The text of the error for a scenario whose method is none or whose
/// expected status is no status code.
pub open spec fn bad_scenario_message(name: Seq<char>) -> Seq<char> {
    "Scenario '"@ + name + "' has an invalid method or status"@
}

/// The position of the first scenario from position `i` on that cannot be
/// built, or the number of scenarios where all can.
pub open spec fn first_unbuildable(scenarios: Seq<config::Scenario>, i: int) -> int
    decreases scenarios.len() - i,
{
    if i < 0 || i >= scenarios.len() {
        scenarios.len() as int
    } else if !buildable(scenarios[i]) {
        i
    } else {
        first_unbuildable(scenarios, i + 1)
    }
}

/// Why a configuration allows no run, if it allows none: it lasts no time
/// at all, it has no scenario, or one of its scenarios cannot be built.
/// The duration is checked first, then that there is a scenario, then the
/// scenarios in their order.
pub open spec fn config_failure(config: RunnerConfig) -> Option<Seq<char>> {
    if config.duration.secs == 0 && config.duration.nanos == 0 {
        Some(no_duration_message())
    } else if config.scenarios@.len() == 0 {
        Some(no_scenario_message())
    } else if first_unbuildable(config.scenarios@, 0) < config.scenarios@.len() {
        Some(bad_scenario_message(config.scenarios@[first_unbuildable(config.scenarios@, 0)].name@))
    } else {
        None
    }
}

/// The batch size that a configuration asks for: a fixed one as it is, but
/// at least one; derived from the rate of chain starts where none is
/// fixed.
pub open spec fn configured_batch(batch_size: config::BatchSize, target_tps: nat) -> nat {
    match batch_size {
        config::BatchSize::Fixed(b) => if b == 0 {
            1
        } else {
            b as nat
        },
        config::BatchSize::Auto(_) => auto_batch(target_tps),
    }
}

/// The context of a chain step: the variables of the chain as locals over
/// the global store.
pub open spec fn seeded(vars: Seq<Variable>, global: Map<Seq<char>, ValueView>) -> ContextView {
    ContextView { local: bindings(vars), global }
}

/// The text of the error that ends a chain when a script fails.
pub open spec fn script_failure_message(e: Seq<char>) -> Seq<char> {
    "Script error: "@ + e
}

/// Whether `step` is what follows when the request of `scenario`, at
/// position `id` of the chain, is prepared in the context `before`, and
/// `global_after` the global store after it: the script before the
/// request runs, then the request is built. The chain goes on with the
/// request and the locals that the script left, or ends with the error of
/// the script or of the request.
pub open spec fn prepared(
    scenario: Scenario,
    id: int,
    before: ContextView,
    step: Step,
    global_after: Map<Seq<char>, ValueView>,
) -> bool {
    exists|mid: ContextView, pre: Result<(), Error>| #[trigger]
        ran(listed(scenario.pre_script), 0, before, mid, pre) && global_after == mid.global
            && match pre {
            Err(e) => step is Errored && step->Errored_0@ == script_failure_message(e@),
            Ok(_) => match request_outcome(scenario, mid) {
                Err(e) => step is Errored && step->Errored_0@ == e,
                Ok((uri, body)) => {
                    &&& step is Send
                    &&& step->Send_0.scenario_id == id
                    &&& bindings(step->Send_0.variables@) == mid.local
                    &&& request_matches(step->Send_1, scenario, uri, body)
                },
            },
        }
}

/// Whether `step` is what follows a response that passed the checks of
/// `scenario`, at position `id` of a chain with the variables `vars`, and
/// `global_after` the global store after it: the variables taken from
/// the response are written over those of the chain, the script after the
/// response runs, and the request of the next scenario is prepared, if
/// there is one.
pub open spec fn advanced(
    scenario: Scenario,
    next: Option<Scenario>,
    id: int,
    vars: Seq<Variable>,
    global_before: Map<Seq<char>, ValueView>,
    response: HttpResponse,
    step: Step,
    global_after: Map<Seq<char>, ValueView>,
) -> bool {
    let found = extract_all(
        scenario.response_defines@,
        response,
        scenario.response_defines@.len() as int,
    );
    let start = ContextView { local: merge(bindings(vars), found), global: global_before };
    exists|mid: ContextView, post: Result<(), Error>| #[trigger]
        ran(listed(scenario.post_script), 0, start, mid, post) && match post {
            Err(e) => step is Errored && step->Errored_0@ == script_failure_message(e@)
                && global_after == mid.global,
            Ok(_) => match next {
                None => step is Completed && global_after == mid.global,
                Some(following) => prepared(following, id + 1, mid, step, global_after),
            },
        }
}

/// Whether `steps` are what follows when as many chains are started one
/// after the other, from the global store `global_before` to the global
/// store `global_after`: each chain starts without variables at the first
/// scenario.
pub open spec fn started(
    scenario: Scenario,
    global_before: Map<Seq<char>, ValueView>,
    steps: Seq<Step>,
    global_after: Map<Seq<char>, ValueView>,
) -> bool
    decreases steps.len(),
{
    if steps.len() == 0 {
        global_after == global_before
    } else {
        exists|global_mid: Map<Seq<char>, ValueView>|
            started(scenario, global_before, steps.drop_last(), global_mid) && #[trigger] prepared(
                scenario,
                0,
                seeded(Seq::empty(), global_mid),
                steps.last(),
                global_after,
            )
    }
}

/// The number of steps that send a request.
pub open spec fn sends(steps: Seq<Step>) -> nat
    decreases steps.len(),
{
    if steps.len() == 0 {
        0
    } else if steps.last() is Send {
        sends(steps.drop_last()) + 1
    } else {
        sends(steps.drop_last())
    }
}

/// The number of chains in a number of batches.
#[verifier::opaque]
pub open spec fn batches(ticks: nat, batch_size: nat) -> nat {
    ticks * batch_size
}

/// A span of time in microseconds, rounded down.
pub open spec fn span_micros(span: TimeSpan) -> nat {
    (span.secs * 1_000_000 + span.nanos / 1000) as nat
}

/// Successes per second in thousandths, rounded down; 0 for no time at
/// all.
pub open spec fn rate_milli(successes: nat, micros: nat) -> nat {
    if micros == 0 {
        0
    } else {
        successes * 1_000_000_000 / micros
    }
}

/// What the counters say after an outcome, given what they said before:
/// the retries of a response are added, and either an error is counted,
/// or a success with its round-trip time.
pub open spec fn counted(
    before: ApiStatsView,
    retries: int,
    success: bool,
    rtt: int,
) -> ApiStatsView {
    ApiStatsView {
        success: if success {
            wrap32(before.success as int, 1)
        } else {
            before.success
        },
        error: if success {
            before.error
        } else {
            wrap32(before.error as int, 1)
        },
        rtt: if success {
            wrap64(before.rtt as int, rtt)
        } else {
            before.rtt
        },
        retry: wrap32(before.retry as int, retries),
    }
}

fn capped_increment(n: u64) -> (r: u64)
    ensures
        r == capped_sum(n as int, 1),
{
    if n == u64::MAX {
        n
    } else {
        n + 1
    }
}

impl Runner {
    /// The scenario at a position of the chain.
    pub open spec fn scenario_at(&self, id: int) -> Scenario {
        if id == 0 {
            self.first_scenario
        } else {
            self.subsequent_scenarios@[id - 1]
        }
    }

    /// What holds of a runner at all times: there are as many scenarios as
    /// the parameters say, no more ticks than the run has, every tick has
    /// started a batch of chains, every outcome was a success or an error,
    /// and the counters hold the tallies wrapped around at the limit of a
    /// `u32`.
    pub open spec fn well_formed(&self) -> bool {
        &&& self.param.well_formed()
        &&& self.param.scenario_count == self.subsequent_scenarios@.len() + 1
        &&& self.ticks <= self.param.iterations()
        &&& self.chains_started == batches(self.ticks as nat, self.param.batch_size as nat)
        &&& self.succeeded + self.failed == self.observed
        &&& self.stats@.success == self.succeeded % 0x1_0000_0000
        &&& self.stats@.error == self.failed % 0x1_0000_0000
    }

    /// The runner for a configuration over a global store, or why the
    /// configuration allows no run.
    pub fn new(config: RunnerConfig, global: Global) -> (r: Result<Runner, String>)
        ensures
            match config_failure(config) {
                Some(m) => r is Err && r->Err_0@ == m,
                None => {
                    &&& r is Ok
                    &&& r->Ok_0.well_formed()
                    &&& r->Ok_0.param.target_rps == config.target_rps
                    &&& r->Ok_0.param.target_tps == chain_rate(
                        config.target_rps as nat,
                        config.scenarios@.len(),
                    )
                    &&& r->Ok_0.param.scenario_count == config.scenarios@.len()
                    &&& r->Ok_0.param.batch_size == configured_batch(
                        config.batch_size,
                        r->Ok_0.param.target_tps as nat,
                    )
                    &&& r->Ok_0.param.total_requests == chain_starts(
                        r->Ok_0.param.target_tps as nat,
                        span_nanos(config.duration),
                    )
                    &&& span_nanos(r->Ok_0.param.interval) == tick_nanos(
                        r->Ok_0.param.batch_size as nat,
                        r->Ok_0.param.target_tps as nat,
                    )
                    &&& r->Ok_0.target_address@ == address_of(config.base_url@)
                    &&& forall|i: int|
                        0 <= i < config.scenarios@.len() ==> scenario_built_from(
                            #[trigger] r->Ok_0.scenario_at(i),
                            config.scenarios@[i],
                            config.base_url@,
                        )
                    &&& r->Ok_0.context.global == global
                    &&& r->Ok_0.context.local.variables@.len() == 0
                    &&& r->Ok_0.ticks == 0
                    &&& r->Ok_0.chains_started == 0
                    &&& r->Ok_0.in_flight == 0
                    &&& r->Ok_0.observed == 0
                    &&& r->Ok_0.aborted == 0
                },
            },
    {
        if config.duration.secs == 0 && config.duration.nanos == 0 {
            return Err(String::from_str("Duration must not be zero"));
        }
        if config.scenarios.len() == 0 {
            return Err(String::from_str("No scenario defined"));
        }
        let batch_size: Option<u32> = match &config.batch_size {
            config::BatchSize::Auto(_) => None,
            config::BatchSize::Fixed(size) => if *size == 0 {
                Some(1)
            } else {
                Some(*size)
            },
        };
        let mut built: Vec<Scenario> = Vec::new();
        let mut i: usize = 0;
        while i < config.scenarios.len()
            invariant
                i <= config.scenarios.len(),
                built@.len() == i,
                first_unbuildable(config.scenarios@, i as int) == first_unbuildable(
                    config.scenarios@,
                    0,
                ),
                !(config.duration.secs == 0 && config.duration.nanos == 0),
                config.scenarios@.len() > 0,
                forall|k: int|
                    0 <= k < i ==> scenario_built_from(
                        #[trigger] built@[k],
                        config.scenarios@[k],
                        config.base_url@,
                    ),
            decreases config.scenarios.len() - i,
        {
            match Scenario::try_new(&config.scenarios[i], config.base_url.as_str()) {
                Some(scenario) => {
                    built.push(scenario);
                },
                None => {
                    return Err(
                        String::from_str("Scenario '").concat(
                            config.scenarios[i].name.as_str(),
                        ).concat("' has an invalid method or status"),
                    );
                },
            }
            i += 1;
        }
        let ghost all = built@;
        let first_scenario = built.remove(0);
        let param = RunParameter::new(
            config.target_rps,
            config.duration,
            batch_size,
            config.scenarios.len(),
        );
        proof {
            reveal(batches);
        }
        let runner = Runner {
            param,
            target_address: target_address(config.base_url.as_str()),
            first_scenario,
            subsequent_scenarios: built,
            context: ScriptContext::new(global),
            stats: ApiStats::new(),
            ticks: 0,
            chains_started: 0,
            in_flight: 0,
            observed: 0,
            succeeded: 0,
            failed: 0,
            aborted: 0,
        };
        assert forall|k: int| 0 <= k < config.scenarios@.len() implies scenario_built_from(
            #[trigger] runner.scenario_at(k),
            config.scenarios@[k],
            config.base_url@,
        ) by {
            assert(runner.scenario_at(k) == all[k]);
        }
        Ok(runner)
    }

    /// Whether the runner has the same parameters, target address and
    /// scenarios as `other`.
    pub open spec fn same_run(&self, other: &Runner) -> bool {
        &&& self.param == other.param
        &&& self.target_address == other.target_address
        &&& self.first_scenario == other.first_scenario
        &&& self.subsequent_scenarios == other.subsequent_scenarios
    }

    /// Prepares the request of the scenario at the position of `ctx` for a
    /// chain with the variables of `ctx`: runs the script before the
    /// request and builds the request. A request that is handed out is in
    /// flight; a chain that ends here is counted as aborted.
    pub fn prepare(&mut self, ctx: EventContext) -> (r: Step)
        requires
            old(self).well_formed(),
            ctx.scenario_id < old(self).param.scenario_count,
            old(self).in_flight < u64::MAX,
        ensures
            final(self).well_formed(),
            final(self).same_run(old(self)),
            final(self).ticks == old(self).ticks,
            final(self).chains_started == old(self).chains_started,
            final(self).stats == old(self).stats,
            final(self).observed == old(self).observed,
            final(self).succeeded == old(self).succeeded,
            final(self).failed == old(self).failed,
            prepared(
                old(self).scenario_at(ctx.scenario_id as int),
                ctx.scenario_id as int,
                seeded(ctx.variables@, old(self).context.global@),
                r,
                final(self).context.global@,
            ),
            r is Send || r is Errored,
            r is Send ==> final(self).in_flight == old(self).in_flight + 1 && final(self).aborted
                == old(self).aborted,
            r is Errored ==> final(self).in_flight == old(self).in_flight && final(self).aborted
                == capped_sum(old(self).aborted as int, 1),
    {
        let id: usize = ctx.scenario_id;
        self.context.local = Local { variables: ctx.variables };
        let ghost before = self.context@;
        let scenario = if id == 0 {
            &self.first_scenario
        } else {
            &self.subsequent_scenarios[id - 1]
        };
        let pre = scenario.run_pre_script(&mut self.context);
        let ghost mid = self.context@;
        let step = match pre {
            Err(e) => Step::Errored(e.message()),
            Ok(_) => match scenario.next_request2(&self.context) {
                Err(e) => Step::Errored(e),
                Ok(request) => {
                    let mut variables: Vec<Variable> = Vec::new();
                    std::mem::swap(&mut variables, &mut self.context.local.variables);
                    Step::Send(EventContext { scenario_id: id, variables }, request)
                },
            },
        };
        self.context.local = Local { variables: Vec::new() };
        match &step {
            Step::Send(_, _) => {
                self.in_flight = self.in_flight + 1;
            },
            _ => {
                self.aborted = capped_increment(self.aborted);
            },
        }
        assert(ran(listed(scenario.pre_script), 0, before, mid, pre));
        step
    }

    /// Starts a chain: prepares the request of the first scenario without
    /// variables.
    pub fn start_chain(&mut self) -> (r: Step)
        requires
            old(self).well_formed(),
            old(self).in_flight < u64::MAX,
        ensures
            final(self).well_formed(),
            final(self).same_run(old(self)),
            final(self).ticks == old(self).ticks,
            final(self).chains_started == old(self).chains_started,
            final(self).stats == old(self).stats,
            final(self).observed == old(self).observed,
            final(self).succeeded == old(self).succeeded,
            final(self).failed == old(self).failed,
            prepared(
                old(self).first_scenario,
                0,
                seeded(Seq::empty(), old(self).context.global@),
                r,
                final(self).context.global@,
            ),
            r is Send || r is Errored,
            r is Send ==> final(self).in_flight == old(self).in_flight + 1 && final(self).aborted
                == old(self).aborted,
            r is Errored ==> final(self).in_flight == old(self).in_flight && final(self).aborted
                == capped_sum(old(self).aborted as int, 1),
    {
        self.prepare(EventContext { scenario_id: 0, variables: Vec::new() })
    }

    /// One tick: starts a batch of chains, one after the other. There must
    /// be a tick left in the run.
    pub fn tick(&mut self) -> (r: Vec<Step>)
        requires
            old(self).well_formed(),
            old(self).ticks < old(self).param.iterations(),
            old(self).in_flight + old(self).param.batch_size <= u64::MAX,
        ensures
            final(self).well_formed(),
            final(self).same_run(old(self)),
            final(self).ticks == old(self).ticks + 1,
            final(self).chains_started == old(self).chains_started + old(self).param.batch_size,
            final(self).stats == old(self).stats,
            final(self).observed == old(self).observed,
            r@.len() == old(self).param.batch_size,
            started(
                old(self).first_scenario,
                old(self).context.global@,
                r@,
                final(self).context.global@,
            ),
            final(self).in_flight == old(self).in_flight + sends(r@),
    {
        let mut steps: Vec<Step> = Vec::new();
        let mut k: u32 = 0;
        while k < self.param.batch_size
            invariant
                k <= self.param.batch_size,
                self.well_formed(),
                self.same_run(old(self)),
                self.ticks == old(self).ticks,
                self.chains_started == old(self).chains_started,
                self.stats == old(self).stats,
                self.observed == old(self).observed,
                steps@.len() == k,
                started(
                    old(self).first_scenario,
                    old(self).context.global@,
                    steps@,
                    self.context.global@,
                ),
                self.in_flight == old(self).in_flight + sends(steps@),
                sends(steps@) <= k,
                old(self).in_flight + old(self).param.batch_size <= u64::MAX,
                old(self).ticks < old(self).param.iterations(),
            decreases self.param.batch_size - k,
        {
            let ghost before = steps@;
            let ghost global_mid = self.context.global@;
            let step = self.start_chain();
            let ghost pushed = step;
            steps.push(step);
            proof {
                assert(steps@.drop_last() == before);
                assert(steps@.last() == pushed);
                assert(started(
                    old(self).first_scenario,
                    old(self).context.global@,
                    steps@.drop_last(),
                    global_mid,
                ));
                assert(prepared(
                    old(self).first_scenario,
                    0,
                    seeded(Seq::empty(), global_mid),
                    steps@.last(),
                    self.context.global@,
                ));
            }
            k += 1;
        }
        proof {
            reveal(batches);
            let batch = self.param.batch_size as int;
            let iterations = self.param.iterations() as int;
            assert((self.ticks + 1) * batch == self.ticks * batch + batch) by (nonlinear_arith);
            assert((self.ticks + 1) * batch <= iterations * batch) by (nonlinear_arith)
                requires
                    self.ticks + 1 <= iterations,
                    batch >= 0,
            ;
            self.param.lemma_starts_fit();
        }
        self.ticks = self.ticks + 1;
        self.chains_started = self.chains_started + self.param.batch_size as u128;
        steps
    }

    /// Whether the run is over: all ticks are done and no request is in
    /// flight.
    pub fn is_finished(&self) -> (r: bool)
        requires
            self.well_formed(),
        ensures
            r == (self.ticks == self.param.iterations() && self.in_flight == 0),
    {
        self.ticks == self.param.total_iterations() && self.in_flight == 0
    }

    /// What the dispatcher is told when the run is over: to close the
    /// connection. `None` while the run is not over.
    pub fn finish(&self) -> (r: Option<Event>)
        requires
            self.well_formed(),
        ensures
            r is Some <==> self.ticks == self.param.iterations() && self.in_flight == 0,
            r is Some ==> r->Some_0 is Terminate,
    {
        if self.is_finished() {
            Some(Event::Terminate)
        } else {
            None
        }
    }

    /// The scenario that follows the one at position `id`, if one follows.
    pub open spec fn following(&self, id: int) -> Option<Scenario> {
        if id + 1 < self.param.scenario_count {
            Some(self.scenario_at(id + 1))
        } else {
            None
        }
    }

    /// Takes in the outcome of a request that was in flight for the chain
    /// of `ctx` and says what follows for the chain. Every outcome counts
    /// as a success or as an error. A transport error and a response that
    /// fails a check end the chain: no further request of the chain is
    /// sent. A response that passes is a success; its variables are
    /// written over those of the chain, the script after the response
    /// runs, and the request of the next scenario is prepared, if there is
    /// one.
    #[verifier::rlimit(60)]
    pub fn on_outcome(&mut self, ctx: EventContext, outcome: Outcome) -> (r: Step)
        requires
            old(self).well_formed(),
            ctx.scenario_id < old(self).param.scenario_count,
            old(self).in_flight > 0,
            old(self).observed < u64::MAX,
        ensures
            final(self).well_formed(),
            final(self).same_run(old(self)),
            final(self).ticks == old(self).ticks,
            final(self).chains_started == old(self).chains_started,
            final(self).observed == old(self).observed + 1,
            r is Send ==> outcome is Response && response_failure(
                old(self).scenario_at(ctx.scenario_id as int).response,
                outcome->Response_0,
            ) is None && r->Send_0.scenario_id == ctx.scenario_id + 1,
            match outcome {
                Outcome::TransportError(e) => {
                    &&& r is Errored
                    &&& r->Errored_0@ == "HttpError: "@ + e.0@
                    &&& final(self).failed == old(self).failed + 1
                    &&& final(self).stats@ == counted(old(self).stats@, 0, false, 0)
                    &&& final(self).in_flight == old(self).in_flight - 1
                    &&& final(self).aborted == old(self).aborted
                    &&& final(self).context.global@ == old(self).context.global@
                },
                Outcome::Response(response) => match response_failure(
                    old(self).scenario_at(ctx.scenario_id as int).response,
                    response,
                ) {
                    Some(m) => {
                        &&& if old(self).scenario_at(ctx.scenario_id as int).assert_panic {
                            r is Fatal && r->Fatal_0@ == m
                        } else {
                            r is Errored && r->Errored_0@ == m
                        }
                        &&& final(self).failed == old(self).failed + 1
                        &&& final(self).stats@ == counted(
                            old(self).stats@,
                            response.retry_count as int,
                            false,
                            0,
                        )
                        &&& final(self).in_flight == old(self).in_flight - 1
                        &&& final(self).aborted == old(self).aborted
                        &&& final(self).context.global@ == old(self).context.global@
                    },
                    None => {
                        &&& final(self).succeeded == old(self).succeeded + 1
                        &&& final(self).stats@ == counted(
                            old(self).stats@,
                            response.retry_count as int,
                            true,
                            response.elapsed_micros as int,
                        )
                        &&& advanced(
                            old(self).scenario_at(ctx.scenario_id as int),
                            old(self).following(ctx.scenario_id as int),
                            ctx.scenario_id as int,
                            ctx.variables@,
                            old(self).context.global@,
                            response,
                            r,
                            final(self).context.global@,
                        )
                        &&& !(r is Fatal)
                        &&& r is Send ==> final(self).in_flight == old(self).in_flight
                            && final(self).aborted == old(self).aborted
                        &&& r is Completed ==> final(self).in_flight == old(self).in_flight - 1
                            && final(self).aborted == old(self).aborted
                        &&& r is Errored ==> final(self).in_flight == old(self).in_flight - 1
                            && final(self).aborted == capped_sum(old(self).aborted as int, 1)
                    },
                },
            },
    {
        let id: usize = ctx.scenario_id;
        self.observed = self.observed + 1;
        self.in_flight = self.in_flight - 1;
        match outcome {
            Outcome::TransportError(e) => {
                self.stats.inc_error();
                self.failed = self.failed + 1;
                Step::Errored(e.message())
            },
            Outcome::Response(response) => {
                self.stats.inc_retry(response.retry_count as u32);
                let scenario = if id == 0 {
                    &self.first_scenario
                } else {
                    &self.subsequent_scenarios[id - 1]
                };
                match scenario.verdict(&response) {
                    Verdict::Fatal(m) => {
                        self.stats.inc_error();
                        self.failed = self.failed + 1;
                        Step::Fatal(m)
                    },
                    Verdict::Failed(m) => {
                        self.stats.inc_error();
                        self.failed = self.failed + 1;
                        Step::Errored(m)
                    },
                    Verdict::Passed => {
                        self.stats.inc_rtt(response.elapsed_micros);
                        self.stats.inc_success();
                        self.succeeded = self.succeeded + 1;
                        let found = scenario.update_variables(&response);
                        let mut variables = ctx.variables;
                        absorb(&mut variables, &found);
                        self.context.local = Local { variables };
                        let ghost start = self.context@;
                        let post = scenario.run_post_script(&mut self.context);
                        let ghost mid = self.context@;
                        let mut variables: Vec<Variable> = Vec::new();
                        std::mem::swap(&mut variables, &mut self.context.local.variables);
                        assert(ran(listed(scenario.post_script), 0, start, mid, post));
                        match post {
                            Err(e) => {
                                self.aborted = capped_increment(self.aborted);
                                Step::Errored(e.message())
                            },
                            Ok(_) => {
                                if id + 1 == self.param.scenario_count {
                                    Step::Completed
                                } else {
                                    assert(seeded(variables@, self.context.global@) == mid);
                                    self.prepare(EventContext { scenario_id: id + 1, variables })
                                }
                            },
                        }
                    },
                }
            },
        }
    }

    /// The report of the run after `elapsed`: every outcome that was taken
    /// in, as a success or as an error, the sum of the round-trip times,
    /// the chains that were aborted, and the rate of successes over the
    /// elapsed time.
    pub fn report(&self, elapsed: TimeSpan) -> (r: RunReport)
        requires
            self.well_formed(),
        ensures
            r.elapsed == elapsed,
            r.success_count == self.succeeded,
            r.error_count == self.failed,
            r.success_count + r.error_count == self.observed,
            r.total_rtt_micros == self.stats@.rtt,
            r.aborted_count == self.aborted,
            r.rps_milli == capped_sum(
                rate_milli(self.succeeded as nat, span_micros(elapsed)) as int,
                0,
            ),
    {
        let micros: u128 = elapsed.secs as u128 * 1_000_000 + (elapsed.nanos / 1000) as u128;
        let rps_milli: u64 = if micros == 0 {
            0
        } else {
            let scaled: u128 = self.succeeded as u128 * 1_000_000_000;
            let rate: u128 = scaled / micros;
            if rate > u64::MAX as u128 {
                u64::MAX
            } else {
                rate as u64
            }
        };
        RunReport {
            rps_milli,
            elapsed,
            success_count: self.succeeded,
            error_count: self.failed,
            total_rtt_micros: self.stats.get_rtt(),
            aborted_count: self.aborted,
        }
    }
}

/// A quotient that is rounded up is the least number of divisors that
/// cover the dividend.
pub proof fn lemma_ceil_div_covers(a: nat, b: nat)
    requires
        b >= 1,
    ensures
        ceil_div(a, b) * b >= a,
        ceil_div(a, b) >= 1 ==> (ceil_div(a, b) - 1) * b < a,
{
    let q = a as int / b as int;
    let r = a as int % b as int;
    lemma_fundamental_div_mod(a as int, b as int);
    assert(b * q == q * b) by (nonlinear_arith);
    assert((q + 1) * b == q * b + b) by (nonlinear_arith);
    assert((q - 1) * b == q * b - b) by (nonlinear_arith);
}

/// The least number of divisors that cover the dividend is the quotient
/// rounded up.
pub proof fn lemma_ceil_div_is_least(a: nat, b: nat, m: nat)
    requires
        b >= 1,
        m * b >= a,
        m >= 1 ==> (m - 1) * b < a,
    ensures
        m == ceil_div(a, b),
{
    let n = ceil_div(a, b);
    lemma_ceil_div_covers(a, b);
    if m < n {
        assert(m * b <= (n - 1) * b) by (nonlinear_arith)
            requires
                m <= n - 1,
                b >= 1,
        ;
    } else if m > n {
        assert((m - 1) * b >= n * b) by (nonlinear_arith)
            requires
                m - 1 >= n,
                b >= 1,
        ;
    }
}

/// Rounding up twice is rounding up once: the chain starts, rounded up to
/// whole chains and then to whole batches, are the chain starts rounded up
/// to whole batches.
pub proof fn lemma_ceil_of_ceil(a: nat, c: nat, b: nat)
    requires
        b >= 1,
        c >= 1,
    ensures
        ceil_div(ceil_div(a, c), b) == ceil_div(a, b * c),
{
    let q = ceil_div(a, c);
    let m = ceil_div(q, b);
    lemma_ceil_div_covers(a, c);
    lemma_ceil_div_covers(q, b);
    assert(m * (b * c) >= a) by (nonlinear_arith)
        requires
            m * b >= q,
            q * c >= a,
            c >= 1,
    ;
    if m >= 1 {
        assert(q >= 1) by (nonlinear_arith)
            requires
                (m - 1) * b < q,
                m >= 1,
                b >= 1,
        ;
        assert((m - 1) * (b * c) < a) by (nonlinear_arith)
            requires
                (m - 1) * b <= q - 1,
                (q - 1) * c < a,
                c >= 1,
        ;
    }
    assert(b * c >= 1) by (nonlinear_arith)
        requires
            b >= 1,
            c >= 1,
    ;
    lemma_ceil_div_is_least(a, b * c, m);
}

/// The number of requests that a run issues follows from its
/// configuration: with the rate of chain starts that the rate of requests
/// and the number of scenarios give, and the batch size that is configured
/// or derived, it is the chain starts over the duration, divided by the
/// batch size and rounded up, times the batch size, times the number of
/// scenarios.
pub proof fn issued_requests_formula(
    param: RunParameter,
    target_rps: u32,
    duration: TimeSpan,
    batch_size: Option<u32>,
    scenario_count: usize,
)
    requires
        scenario_count >= 1,
        batch_size matches Some(b) ==> b >= 1,
        param.target_tps == chain_rate(target_rps as nat, scenario_count as nat),
        param.batch_size == match batch_size {
            Some(b) => b as nat,
            None => auto_batch(param.target_tps as nat),
        },
        param.total_requests == chain_starts(param.target_tps as nat, span_nanos(duration)),
        param.scenario_count == scenario_count,
    ensures
        param.issued() == ceil_div(
            chain_starts(
                chain_rate(target_rps as nat, scenario_count as nat),
                span_nanos(duration),
            ),
            match batch_size {
                Some(b) => b as nat,
                None => auto_batch(chain_rate(target_rps as nat, scenario_count as nat)),
            },
        ) * param.batch_size * scenario_count,
        param.iterations() == ceil_div(
            param.target_tps as nat * span_nanos(duration),
            param.batch_size as nat * 1_000_000_000,
        ),
{
    lemma_ceil_of_ceil(
        param.target_tps as nat * span_nanos(duration),
        1_000_000_000,
        param.batch_size as nat,
    );
}

/// When all ticks of a run are done, the run has started as many chains as
/// it has ticks times the batch size, and these chains, run to their end,
/// issue the requests of the run: the chain starts that the rate asks for
/// over the duration, divided by the batch size and rounded up, times the
/// batch size, times the number of scenarios.
pub proof fn finished_run_issues_all_requests(runner: Runner)
    requires
        runner.well_formed(),
        runner.ticks == runner.param.iterations(),
    ensures
        runner.chains_started == runner.param.iterations() * runner.param.batch_size,
        runner.chains_started * runner.param.scenario_count == runner.param.issued(),
        runner.param.issued() == ceil_div(
            runner.param.total_requests as nat,
            runner.param.batch_size as nat,
        ) * runner.param.batch_size * runner.param.scenario_count,
{
    reveal(batches);
}

/// Every outcome that a runner has taken in counts as a success or as an
/// error, and never as both; while fewer outcomes are in than a `u32`
/// holds, the two counters add up to their number.
pub proof fn outcomes_are_counted(runner: Runner)
    requires
        runner.well_formed(),
    ensures
        runner.succeeded + runner.failed == runner.observed,
        runner.observed < 0x1_0000_0000 ==> runner.stats@.success + runner.stats@.error
            == runner.observed,
{
}

/// Every step of a tick starts a chain at the first scenario: it sends a
/// request at position 0 or ends the chain with an error.
pub proof fn started_chains_are_first_steps(
    scenario: Scenario,
    global_before: Map<Seq<char>, ValueView>,
    steps: Seq<Step>,
    global_after: Map<Seq<char>, ValueView>,
)
    requires
        started(scenario, global_before, steps, global_after),
    ensures
        forall|k: int|
            0 <= k < steps.len() ==> ((#[trigger] steps[k]) is Errored || (steps[k] is Send
                && steps[k]->Send_0.scenario_id == 0)),
    decreases steps.len(),
{
    if steps.len() > 0 {
        let global_mid = choose|global_mid: Map<Seq<char>, ValueView>|
            started(scenario, global_before, steps.drop_last(), global_mid) && #[trigger] prepared(
                scenario,
                0,
                seeded(Seq::empty(), global_mid),
                steps.last(),
                global_after,
            );
        started_chains_are_first_steps(scenario, global_before, steps.drop_last(), global_mid);
        assert forall|k: int| 0 <= k < steps.len() implies ((#[trigger] steps[k]) is Errored || (
        steps[k] is Send && steps[k]->Send_0.scenario_id == 0)) by {
            if k < steps.len() - 1 {
                assert(steps[k] == steps.drop_last()[k]);
            }
        }
    }
}

} // verus!
