//! The supervisor's lifecycle decisions as plain functions: the spawn
//! interval a hatch rate dictates, the cyclic plan that assigns one task set
//! to every user, the metrics drain, and the snapshot a controller's metrics
//! command is answered with. The surrounding process owns the clock and the
//! channels and calls these once per iteration.

use vstd::prelude::*;

use crate::codec;
use crate::controller::SwanlingControllerCommand;
use crate::controller::SwanlingControllerRequestMessage;
use crate::controller::SwanlingControllerResponseMessage;
use crate::config::SwanlingConfiguration;
use crate::metrics::clone_metrics;
use crate::metrics::error_folded;
use crate::metrics::metrics_eq;
use crate::metrics::request_folded;
use crate::metrics::task_folded;
use crate::metrics::SwanlingErrorMetricAggregate;
use crate::metrics::SwanlingMetric;
use crate::metrics::SwanlingMetrics;
use crate::metrics::SwanlingRequestMetricAggregate;
use crate::metrics::SwanlingTaskMetricAggregate;
use crate::metrics::spec_co_extra;
use crate::util;
use crate::AttackPhase;

verus! {

/// How many milliseconds pass between two user launches: one thousand
/// divided by the hatch rate, the rate given in thousandths of users per
/// second. A rate of one user per second spawns one user every thousand
/// milliseconds.
pub fn user_spawn_interval_ms(milli_rate: u64) -> (r: u64)
    requires
        milli_rate >= 1,
    ensures
        r == 1_000_000u64 / milli_rate,
        milli_rate == 1000 ==> r == 1000,
{
    1_000_000 / milli_rate
}

/// Builds the plan that assigns one task set to every user to be launched:
/// the weighted allocation, repeated cyclically until every user has a set.
pub fn build_user_plan(weighted_task_sets: &Vec<usize>, users: usize) -> (r: Vec<usize>)
    requires
        weighted_task_sets@.len() >= 1,
    ensures
        r@.len() == users,
        forall|i: int|
            0 <= i < users ==> #[trigger] r@[i] == weighted_task_sets@[i % (
            weighted_task_sets@.len() as int)],
{
    let n = weighted_task_sets.len();
    let mut r: Vec<usize> = Vec::new();
    let mut i: usize = 0;
    let mut j: usize = 0;
    while i < users
        invariant
            n == weighted_task_sets@.len(),
            n >= 1,
            i <= users,
            j < n,
            j == i as int % n as int,
            r@.len() == i,
            forall|k: int|
                0 <= k < i ==> #[trigger] r@[k] == weighted_task_sets@[k % (n as int)],
        decreases users - i,
    {
        r.push(weighted_task_sets[j]);
        proof {
            assert((i + 1) as int % n as int == (if j + 1 == n {
                0int
            } else {
                j + 1
            })) by (nonlinear_arith)
                requires
                    i as int % n as int == j,
                    0 <= j < n,
                    n >= 1,
                    i >= 0,
            {
            }
        }
        i = i + 1;
        j = j + 1;
        if j == n {
            j = 0;
        }
    }
    r
}

/// What folding a batch of records costs in the folded-records counter: one
/// per record, plus the synthesized samples of flagged request records.
pub open spec fn records_cost(records: Seq<SwanlingMetric>, co_enabled: bool) -> nat
    decreases records.len(),
{
    if records.len() == 0 {
        0
    } else {
        let head_cost: nat = match records[0] {
            SwanlingMetric::Request(raw) => 1 + (if co_enabled {
                spec_co_extra(raw.coordinated_omission_elapsed, raw.user_cadence)
            } else {
                0
            }),
            SwanlingMetric::Task(_) => 1,
        };
        head_cost + records_cost(records.drop_first(), co_enabled)
    }
}

/// The three aggregate stores, as the drain's fold relation steps over them.
pub struct MetricsStores {
    /// The per-request aggregates.
    pub requests: Seq<(String, SwanlingRequestMetricAggregate)>,
    /// The per-error aggregates.
    pub errors: Seq<(String, SwanlingErrorMetricAggregate)>,
    /// The per-task aggregates.
    pub tasks: Seq<SwanlingTaskMetricAggregate>,
}

/// The aggregate stores a metrics container holds.
pub open spec fn stores_of(m: SwanlingMetrics) -> MetricsStores {
    MetricsStores { requests: m.requests@, errors: m.errors@, tasks: m.tasks@ }
}

/// What folding one record does to the stores: a request record feeds its
/// request aggregate and, on failure, the error summary; a task record feeds
/// its task aggregate; nothing else moves.
pub open spec fn record_step(
    before: MetricsStores,
    after: MetricsStores,
    rec: SwanlingMetric,
    status_codes_enabled: bool,
    error_summary_enabled: bool,
    co_enabled: bool,
) -> bool {
    match rec {
        SwanlingMetric::Request(raw) => {
            &&& request_folded(before.requests, after.requests, raw, status_codes_enabled, co_enabled)
            &&& error_folded(before.errors, after.errors, raw, error_summary_enabled)
            &&& after.tasks == before.tasks
        },
        SwanlingMetric::Task(raw) => {
            &&& task_folded(before.tasks, after.tasks, raw)
            &&& after.requests == before.requests
            &&& after.errors == before.errors
        },
    }
}

/// What folding a whole batch does to the stores: each record's step, in
/// order.
pub open spec fn batch_folded(
    before: MetricsStores,
    after: MetricsStores,
    records: Seq<SwanlingMetric>,
    status_codes_enabled: bool,
    error_summary_enabled: bool,
    co_enabled: bool,
) -> bool
    decreases records.len(),
{
    if records.len() == 0 {
        after == before
    } else {
        exists|mid: MetricsStores|
            #[trigger] record_step(
                before,
                mid,
                records[0],
                status_codes_enabled,
                error_summary_enabled,
                co_enabled,
            ) && batch_folded(
                mid,
                after,
                records.drop_first(),
                status_codes_enabled,
                error_summary_enabled,
                co_enabled,
            )
    }
}

/// A batch fold followed by one more step is the fold of the longer batch.
proof fn lemma_batch_folded_snoc(
    before: MetricsStores,
    mid: MetricsStores,
    after: MetricsStores,
    records: Seq<SwanlingMetric>,
    rec: SwanlingMetric,
    sc: bool,
    es: bool,
    co: bool,
)
    requires
        batch_folded(before, mid, records, sc, es, co),
        record_step(mid, after, rec, sc, es, co),
    ensures
        batch_folded(before, after, records.push(rec), sc, es, co),
    decreases records.len(),
{
    if records.len() == 0 {
        assert(mid == before);
        assert(records.push(rec)[0] == rec);
        assert(records.push(rec).drop_first() =~= Seq::<SwanlingMetric>::empty());
        assert(record_step(before, after, rec, sc, es, co) && batch_folded(
            after,
            after,
            records.push(rec).drop_first(),
            sc,
            es,
            co,
        ));
    } else {
        let m1 = choose|m1: MetricsStores|
            #[trigger] record_step(before, m1, records[0], sc, es, co) && batch_folded(
                m1,
                mid,
                records.drop_first(),
                sc,
                es,
                co,
            );
        lemma_batch_folded_snoc(m1, mid, after, records.drop_first(), rec, sc, es, co);
        assert(records.push(rec)[0] == records[0]);
        assert(records.push(rec).drop_first() =~= records.drop_first().push(rec));
        assert(record_step(before, m1, records.push(rec)[0], sc, es, co) && batch_folded(
            m1,
            after,
            records.push(rec).drop_first(),
            sc,
            es,
            co,
        ));
    }
}

/// Drains a batch of metric records into the aggregates: every record handed
/// in is folded, in order — the request, task and error aggregates change by
/// exactly the batch's fold, and the number of records folded grows by
/// exactly the number of records the users emitted (plus the synthesized
/// mitigation samples).
pub fn receive_metrics(
    metrics: &mut SwanlingMetrics,
    records: &Vec<SwanlingMetric>,
    status_codes_enabled: bool,
    error_summary_enabled: bool,
    co_enabled: bool,
)
    requires
        old(metrics).wf(),
        old(metrics).records_folded + records_cost(records@, true) <= u64::MAX,
    ensures
        final(metrics).wf(),
        final(metrics).records_folded == old(metrics).records_folded + records_cost(
            records@,
            co_enabled,
        ),
        final(metrics).users == old(metrics).users,
        batch_folded(
            stores_of(*old(metrics)),
            stores_of(*final(metrics)),
            records@,
            status_codes_enabled,
            error_summary_enabled,
            co_enabled,
        ),
{
    let mut i: usize = 0;
    proof {
        assert(records@.skip(0) =~= records@);
        assert(records@.take(0) =~= Seq::<SwanlingMetric>::empty());
    }
    while i < records.len()
        invariant
            metrics.wf(),
            i <= records@.len(),
            metrics.users == old(metrics).users,
            metrics.records_folded == old(metrics).records_folded + records_cost(
                records@.take(i as int),
                co_enabled,
            ),
            old(metrics).records_folded + records_cost(records@, true) <= u64::MAX,
            metrics.records_folded + records_cost(records@.skip(i as int), true) <= u64::MAX,
            batch_folded(
                stores_of(*old(metrics)),
                stores_of(*metrics),
                records@.take(i as int),
                status_codes_enabled,
                error_summary_enabled,
                co_enabled,
            ),
        decreases records@.len() - i,
    {
        let ghost mid = stores_of(*metrics);
        proof {
            lemma_records_cost_step(records@, i as int, co_enabled);
            lemma_records_cost_step(records@, i as int, true);
            assert(records@.skip(i as int)[0] == records@[i as int]);
            assert(records@.skip(i as int).drop_first() =~= records@.skip(i + 1));
            lemma_records_cost_le(records@.skip(i as int), co_enabled);
        }
        match &records[i] {
            SwanlingMetric::Request(raw) => {
                proof {
                    if !co_enabled && raw.user_cadence >= 1 && raw.coordinated_omission_elapsed
                        >= 1 {
                    }
                }
                metrics.record_request(raw, status_codes_enabled, error_summary_enabled, co_enabled);
            },
            SwanlingMetric::Task(raw) => {
                metrics.record_task(raw);
            },
        }
        proof {
            assert(record_step(
                mid,
                stores_of(*metrics),
                records@[i as int],
                status_codes_enabled,
                error_summary_enabled,
                co_enabled,
            ));
            lemma_batch_folded_snoc(
                stores_of(*old(metrics)),
                mid,
                stores_of(*metrics),
                records@.take(i as int),
                records@[i as int],
                status_codes_enabled,
                error_summary_enabled,
                co_enabled,
            );
            assert(records@.take(i as int).push(records@[i as int]) =~= records@.take(i + 1));
        }
        i = i + 1;
    }
    proof {
        assert(records@.take(records@.len() as int) =~= records@);
    }
}

/// One more record adds its own cost.
proof fn lemma_records_cost_step(records: Seq<SwanlingMetric>, i: int, co: bool)
    requires
        0 <= i < records.len(),
    ensures
        records_cost(records.take(i + 1), co) == records_cost(records.take(i), co) + (match records[i] {
            SwanlingMetric::Request(raw) => 1 + (if co {
                spec_co_extra(raw.coordinated_omission_elapsed, raw.user_cadence) as int
            } else {
                0int
            }),
            SwanlingMetric::Task(_) => 1int,
        }),
    decreases i,
{
    if i == 0 {
        assert(records.take(1)[0] == records[0]);
        assert(records.take(1).drop_first() =~= Seq::<SwanlingMetric>::empty());
        assert(records.take(0) =~= Seq::<SwanlingMetric>::empty());
    } else {
        lemma_records_cost_step(records.drop_first(), i - 1, co);
        assert(records.take(i + 1)[0] == records[0]);
        assert(records.take(i + 1).drop_first() =~= records.drop_first().take(i));
        assert(records.take(i).drop_first() =~= records.drop_first().take(i - 1));
        assert(records.take(i)[0] == records[0]);
        assert(records.drop_first()[i - 1] == records[i]);
    }
}

/// Mitigation never lowers a batch's cost below its plain count, and the
/// enabled cost is the largest.
proof fn lemma_records_cost_le(records: Seq<SwanlingMetric>, co: bool)
    ensures
        records_cost(records, co) <= records_cost(records, true),
    decreases records.len(),
{
    if records.len() > 0 {
        lemma_records_cost_le(records.drop_first(), co);
    }
}

/// Encodes the metrics snapshot a controller's metrics command is answered
/// with: the user count, the run's duration, the records folded so far, and
/// how many request and error aggregates exist.
pub fn encode_metrics_summary(m: &SwanlingMetrics) -> (r: Vec<char>)
    ensures
        r@ == codec::enc_object(spec_metrics_summary_fields(*m)),
{
    let mut fields: Vec<(Vec<char>, codec::JsonScalar)> = Vec::new();
    fields.push((util::str_to_chars("users"), codec::JsonScalar::UInt(m.users as u64)));
    fields.push((util::str_to_chars("duration"), codec::JsonScalar::UInt(m.duration as u64)));
    fields.push(
        (util::str_to_chars("records_folded"), codec::JsonScalar::UInt(m.records_folded)),
    );
    fields.push(
        (util::str_to_chars("requests"), codec::JsonScalar::UInt(m.requests.len() as u64)),
    );
    fields.push((util::str_to_chars("errors"), codec::JsonScalar::UInt(m.errors.len() as u64)));
    let out = codec::encode_object(&fields);
    proof {
        assert(codec::fields_view(fields@) =~= spec_metrics_summary_fields(*m));
    }
    out
}

/// The fields of the metrics summary snapshot.
pub open spec fn spec_metrics_summary_fields(m: SwanlingMetrics) -> Seq<
    (Seq<char>, codec::JsonScalarView),
> {
    seq![
        ("users"@, codec::JsonScalarView::UInt(m.users as u64)),
        ("duration"@, codec::JsonScalarView::UInt(m.duration as u64)),
        ("records_folded"@, codec::JsonScalarView::UInt(m.records_folded)),
        ("requests"@, codec::JsonScalarView::UInt(m.requests@.len() as u64)),
        ("errors"@, codec::JsonScalarView::UInt(m.errors@.len() as u64)),
    ]
}


/// A refused request: nothing changes and the reply is a negative.
pub open spec fn request_refused(
    r: (AttackPhase, SwanlingConfiguration, bool, SwanlingControllerResponseMessage),
    phase: AttackPhase,
    config: SwanlingConfiguration,
    shutdown_after_stop: bool,
) -> bool {
    &&& r.0 == phase
    &&& r.1 == config
    &&& r.2 == shutdown_after_stop
    &&& r.3 matches SwanlingControllerResponseMessage::Bool(false)
}

/// Answers one controller request on the supervisor's side, as one step of
/// its loop: the next phase, the updated configuration, the updated
/// shutdown-after-stop flag, and the reply sent back on the request's reply
/// channel. `can_start` says whether the supervisor could prepare the load
/// test (the hosts resolve); the caller re-derives the stop instant from the
/// updated `run_time` with the duration evaluator, and resets the run state
/// when `Start` is granted.
#[verifier::rlimit(100)]
#[verifier::spinoff_prover]
pub fn handle_controller_request(
    phase: AttackPhase,
    config: SwanlingConfiguration,
    shutdown_after_stop: bool,
    metrics: &SwanlingMetrics,
    can_start: bool,
    req: &SwanlingControllerRequestMessage,
) -> (r: (AttackPhase, SwanlingConfiguration, bool, SwanlingControllerResponseMessage))
    ensures
        req.command is Host ==> (match req.value {
            Some(v) => if phase is Idle {
                r.0 == phase && r.2 == shutdown_after_stop && r.1 == (SwanlingConfiguration {
                    host: v,
                    ..config
                }) && (r.3 matches SwanlingControllerResponseMessage::Bool(true))
            } else {
                request_refused(r, phase, config, shutdown_after_stop)
            },
            None => request_refused(r, phase, config, shutdown_after_stop),
        }),
        req.command is Users ==> (match req.value {
            Some(v) => if phase is Idle && v@.len() >= 1 && util::all_digits(v@)
                && util::digits_value(v@) <= usize::MAX {
                r.0 == phase && r.2 == shutdown_after_stop && (r.1.users matches Some(n) && n as nat
                    == util::digits_value(v@)) && r.1 == (SwanlingConfiguration {
                    users: r.1.users,
                    ..config
                }) && (r.3 matches SwanlingControllerResponseMessage::Bool(true))
            } else {
                request_refused(r, phase, config, shutdown_after_stop)
            },
            None => request_refused(r, phase, config, shutdown_after_stop),
        }),
        req.command is HatchRate ==> (match req.value {
            Some(v) => r.0 == phase && r.2 == shutdown_after_stop && r.1 == (SwanlingConfiguration {
                hatch_rate: Some(v),
                ..config
            }) && (r.3 matches SwanlingControllerResponseMessage::Bool(true)),
            None => request_refused(r, phase, config, shutdown_after_stop),
        }),
        req.command is RunTime ==> (match req.value {
            Some(v) => r.0 == phase && r.2 == shutdown_after_stop && r.1 == (SwanlingConfiguration {
                run_time: v,
                ..config
            }) && (r.3 matches SwanlingControllerResponseMessage::Bool(true)),
            None => request_refused(r, phase, config, shutdown_after_stop),
        }),
        (req.command is Config || req.command is ConfigJson) ==> (r.0 == phase && r.1 == config
            && r.2 == shutdown_after_stop && (
        r.3 matches SwanlingControllerResponseMessage::Config(c) && *c == config)),
        (req.command is Metrics || req.command is MetricsJson) ==> (r.0 == phase && r.1 == config
            && r.2 == shutdown_after_stop && (
        r.3 matches SwanlingControllerResponseMessage::Metrics(m) && metrics_eq(*m, *metrics))),
        req.command is Start ==> if phase is Idle && can_start {
            r.0 is Starting && r.1 == config && r.2 == shutdown_after_stop && (
            r.3 matches SwanlingControllerResponseMessage::Bool(true))
        } else {
            request_refused(r, phase, config, shutdown_after_stop)
        },
        req.command is Stop ==> if phase is Starting || phase is Running {
            r.0 is Stopping && r.2 == false && r.1 == (SwanlingConfiguration {
                no_autostart: true,
                ..config
            }) && (r.3 matches SwanlingControllerResponseMessage::Bool(true))
        } else {
            request_refused(r, phase, config, shutdown_after_stop)
        },
        req.command is Shutdown ==> (r.0 is Stopping && r.1 == config && r.2 == true && (
        r.3 matches SwanlingControllerResponseMessage::Bool(true))),
        (req.command is Help || req.command is Exit) ==> request_refused(
            r,
            phase,
            config,
            shutdown_after_stop,
        ),
{
    match req.command {
        SwanlingControllerCommand::Host => handle_host(phase, config, shutdown_after_stop, req),
        SwanlingControllerCommand::Users => handle_users(phase, config, shutdown_after_stop, req),
        SwanlingControllerCommand::HatchRate => handle_hatch_rate(
            phase,
            config,
            shutdown_after_stop,
            req,
        ),
        SwanlingControllerCommand::RunTime => handle_run_time(
            phase,
            config,
            shutdown_after_stop,
            req,
        ),
        SwanlingControllerCommand::Config | SwanlingControllerCommand::ConfigJson => {
            let snapshot = Box::new(config.clone());
            (phase, config, shutdown_after_stop, SwanlingControllerResponseMessage::Config(snapshot))
        },
        SwanlingControllerCommand::Metrics | SwanlingControllerCommand::MetricsJson => {
            let snapshot = Box::new(clone_metrics(metrics));
            (
                phase,
                config,
                shutdown_after_stop,
                SwanlingControllerResponseMessage::Metrics(snapshot),
            )
        },
        SwanlingControllerCommand::Start => {
            if phase == AttackPhase::Idle && can_start {
                (
                    AttackPhase::Starting,
                    config,
                    shutdown_after_stop,
                    SwanlingControllerResponseMessage::Bool(true),
                )
            } else {
                (phase, config, shutdown_after_stop, SwanlingControllerResponseMessage::Bool(false))
            }
        },
        SwanlingControllerCommand::Stop => {
            if phase == AttackPhase::Starting || phase == AttackPhase::Running {
                let mut c = config;
                c.no_autostart = true;
                (AttackPhase::Stopping, c, false, SwanlingControllerResponseMessage::Bool(true))
            } else {
                (phase, config, shutdown_after_stop, SwanlingControllerResponseMessage::Bool(false))
            }
        },
        SwanlingControllerCommand::Shutdown => (
            AttackPhase::Stopping,
            config,
            true,
            SwanlingControllerResponseMessage::Bool(true),
        ),
        SwanlingControllerCommand::Help | SwanlingControllerCommand::Exit => (
            phase,
            config,
            shutdown_after_stop,
            SwanlingControllerResponseMessage::Bool(false),
        ),
    }
}

/// The `host` command: accepted only while idle.
#[verifier::rlimit(100)]
#[verifier::spinoff_prover]
fn handle_host(
    phase: AttackPhase,
    config: SwanlingConfiguration,
    shutdown_after_stop: bool,
    req: &SwanlingControllerRequestMessage,
) -> (r: (AttackPhase, SwanlingConfiguration, bool, SwanlingControllerResponseMessage))
    ensures
        match req.value {
            Some(v) => if phase is Idle {
                r.0 == phase && r.2 == shutdown_after_stop && r.1 == (SwanlingConfiguration {
                    host: v,
                    ..config
                }) && (r.3 matches SwanlingControllerResponseMessage::Bool(true))
            } else {
                request_refused(r, phase, config, shutdown_after_stop)
            },
            None => request_refused(r, phase, config, shutdown_after_stop),
        },
{
    if phase == AttackPhase::Idle {
        match &req.value {
            Some(v) => {
                let mut c = config;
                c.host = v.clone();
                (phase, c, shutdown_after_stop, SwanlingControllerResponseMessage::Bool(true))
            },
            None => (
                phase,
                config,
                shutdown_after_stop,
                SwanlingControllerResponseMessage::Bool(false),
            ),
        }
    } else {
        (phase, config, shutdown_after_stop, SwanlingControllerResponseMessage::Bool(false))
    }
}

/// The `users` command: accepted only while idle, with a decimal value that
/// fits.
#[verifier::rlimit(100)]
#[verifier::spinoff_prover]
fn handle_users(
    phase: AttackPhase,
    config: SwanlingConfiguration,
    shutdown_after_stop: bool,
    req: &SwanlingControllerRequestMessage,
) -> (r: (AttackPhase, SwanlingConfiguration, bool, SwanlingControllerResponseMessage))
    ensures
        match req.value {
            Some(v) => if phase is Idle && v@.len() >= 1 && util::all_digits(v@)
                && util::digits_value(v@) <= usize::MAX {
                r.0 == phase && r.2 == shutdown_after_stop && (r.1.users matches Some(n) && n as nat
                    == util::digits_value(v@)) && r.1 == (SwanlingConfiguration {
                    users: r.1.users,
                    ..config
                }) && (r.3 matches SwanlingControllerResponseMessage::Bool(true))
            } else {
                request_refused(r, phase, config, shutdown_after_stop)
            },
            None => request_refused(r, phase, config, shutdown_after_stop),
        },
{
    if phase != AttackPhase::Idle {
        return (phase, config, shutdown_after_stop, SwanlingControllerResponseMessage::Bool(false));
    }
    match &req.value {
        Some(v) => {
            let chars = util::str_to_chars(v.as_str());
            let e = util::find_digit_run_end(&chars, 0);
            proof {
                util::lemma_digit_run_end(chars@, 0);
                if chars@.len() >= 1 && util::all_digits(chars@) {
                    crate::controller::lemma_all_digits_run(chars@);
                }
                assert(chars@.subrange(0, chars@.len() as int) =~= chars@);
            }
            if chars.len() >= 1 && e == chars.len() {
                match util::parse_u64_digits(&chars, 0, e) {
                    Some(n) => {
                        if n <= usize::MAX as u64 {
                            let mut c = config;
                            c.users = Some(n as usize);
                            return (
                                phase,
                                c,
                                shutdown_after_stop,
                                SwanlingControllerResponseMessage::Bool(true),
                            );
                        }
                        (
                            phase,
                            config,
                            shutdown_after_stop,
                            SwanlingControllerResponseMessage::Bool(false),
                        )
                    },
                    None => (
                        phase,
                        config,
                        shutdown_after_stop,
                        SwanlingControllerResponseMessage::Bool(false),
                    ),
                }
            } else {
                (
                    phase,
                    config,
                    shutdown_after_stop,
                    SwanlingControllerResponseMessage::Bool(false),
                )
            }
        },
        None => (phase, config, shutdown_after_stop, SwanlingControllerResponseMessage::Bool(false)),
    }
}

/// The `hatchrate` command: accepted in any phase.
#[verifier::rlimit(100)]
#[verifier::spinoff_prover]
fn handle_hatch_rate(
    phase: AttackPhase,
    config: SwanlingConfiguration,
    shutdown_after_stop: bool,
    req: &SwanlingControllerRequestMessage,
) -> (r: (AttackPhase, SwanlingConfiguration, bool, SwanlingControllerResponseMessage))
    ensures
        match req.value {
            Some(v) => r.0 == phase && r.2 == shutdown_after_stop && r.1 == (SwanlingConfiguration {
                hatch_rate: Some(v),
                ..config
            }) && (r.3 matches SwanlingControllerResponseMessage::Bool(true)),
            None => request_refused(r, phase, config, shutdown_after_stop),
        },
{
    match &req.value {
        Some(v) => {
            let mut c = config;
            c.hatch_rate = Some(v.clone());
            (phase, c, shutdown_after_stop, SwanlingControllerResponseMessage::Bool(true))
        },
        None => (phase, config, shutdown_after_stop, SwanlingControllerResponseMessage::Bool(false)),
    }
}

/// The `runtime` command: accepted in any phase; the caller re-derives the
/// stop instant from the updated value.
#[verifier::rlimit(100)]
#[verifier::spinoff_prover]
fn handle_run_time(
    phase: AttackPhase,
    config: SwanlingConfiguration,
    shutdown_after_stop: bool,
    req: &SwanlingControllerRequestMessage,
) -> (r: (AttackPhase, SwanlingConfiguration, bool, SwanlingControllerResponseMessage))
    ensures
        match req.value {
            Some(v) => r.0 == phase && r.2 == shutdown_after_stop && r.1 == (SwanlingConfiguration {
                run_time: v,
                ..config
            }) && (r.3 matches SwanlingControllerResponseMessage::Bool(true)),
            None => request_refused(r, phase, config, shutdown_after_stop),
        },
{
    match &req.value {
        Some(v) => {
            let mut c = config;
            c.run_time = v.clone();
            (phase, c, shutdown_after_stop, SwanlingControllerResponseMessage::Bool(true))
        },
        None => (phase, config, shutdown_after_stop, SwanlingControllerResponseMessage::Bool(false)),
    }
}

} // verus!
