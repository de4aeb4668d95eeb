//! The scan of many hosts over a bounded pool of workers.

use crate::address::Ipv4Address;
use crate::probe::{
    answered, plan, plan_place, probe_address, probed, reported, scanned, ConnectResult,
    ProbeOutcome,
};
use rayon::iter::{IntoParallelRefIterator, ParallelIterator};
use rayon::{ThreadPool, ThreadPoolBuildError, ThreadPoolBuilder};
use vstd::prelude::*;

verus! {

/// Number of workers where the operator names none.
pub const DEFAULT_CONCURRENCY: usize = 4;

/// `rayon::ThreadPool`, a set of worker threads. Nothing is known of its inside.
#[verifier::external_type_specification]
#[verifier::external_body]
pub struct ExThreadPool(ThreadPool);

/// `rayon::ThreadPoolBuildError`, the reason why no pool was started.
#[verifier::external_type_specification]
#[verifier::external_body]
pub struct ExThreadPoolBuildError(ThreadPoolBuildError);

/// The worker pool could not be started; no connect attempt was made.
#[derive(Clone, Debug, PartialEq, Eq)]
pub struct PoolError {
    pub reason: String,
}

/// Calls `rayon::ThreadPoolBuilder::new().num_threads(workers).build()`.
/// Whether the threads can be started is up to the system, so nothing is
/// claimed of the result. With `workers` 0 rayon picks the number itself.
#[verifier::external_body]
fn build_pool(workers: usize) -> (built: Result<ThreadPool, ThreadPoolBuildError>) {
    ThreadPoolBuilder::new().num_threads(workers).build()
}

/// Calls `to_string` on a `rayon::ThreadPoolBuildError`. Nothing is claimed
/// of the text.
#[verifier::external_body]
fn build_error_text(error: &ThreadPoolBuildError) -> (text: String) {
    error.to_string()
}

/// Calls `rayon::ThreadPool::install`, which runs `op` inside the pool and
/// hands back what `op` returned.
#[verifier::external_body]
fn run_in_pool<OP, T>(pool: &ThreadPool, op: OP) -> (result: T) where
    OP: FnOnce() -> T + Send,
    T: Send,

    requires
        call_requires(op, ()),
    ensures
        call_ensures(op, (), result),
{
    pool.install(op)
}

/// Calls rayon's `par_iter().map(each).collect()` on `items`.
///
/// The contract claims what rayon documents of `map` and of `collect` into a
/// `Vec` over a slice: the result has one entry per item, in the order of the
/// items, and each entry is what `each` returned for that item. Which worker
/// runs which item, and when, is left open.
#[verifier::external_body]
fn map_in_parallel<T, U, F>(items: &Vec<T>, each: F) -> (mapped: Vec<U>) where
    T: Sync,
    U: Send,
    F: Fn(&T) -> U + Sync + Send,

    requires
        forall|i: int| 0 <= i < items@.len() ==> call_requires(each, (&#[trigger] items@[i],)),
    ensures
        mapped@.len() == items@.len(),
        forall|i: int|
            0 <= i < items@.len() ==> call_ensures(each, (&items@[i],), #[trigger] mapped@[i]),
{
    items.par_iter().map(each).collect()
}

/// Probes every port of `ports` on every address of `addresses` with the
/// workers of `pool`. Addresses are spread over the workers; the ports of one
/// address are tried one after the other by the worker that has the address.
/// Each outcome goes to `report` when it is known; the list returned holds
/// them all in the order of the plan, whichever worker finished first.
pub fn probe_in<C, R>(
    pool: &ThreadPool,
    addresses: &Vec<Ipv4Address>,
    ports: &Vec<u16>,
    connect: &C,
    report: &R,
) -> (outcomes: Vec<ProbeOutcome>) where
    C: Fn(Ipv4Address, u16) -> ConnectResult + Sync,
    R: Fn(&ProbeOutcome) -> () + Sync,

    requires
        forall|i: int, j: int|
            0 <= i < addresses@.len() && 0 <= j < ports@.len() ==> call_requires(
                *connect,
                (#[trigger] addresses@[i], #[trigger] ports@[j]),
            ),
        forall|outcome: ProbeOutcome| call_requires(*report, (&outcome,)),
    ensures
        scanned(connect, addresses@, ports@, outcomes@),
        reported(report, outcomes@),
{
    let one = |address: &Ipv4Address| -> (group: Vec<ProbeOutcome>)
        requires
            forall|j: int| 0 <= j < ports@.len() ==> call_requires(*connect, (*address, ports@[j])),
        ensures
            probed(connect, *address, ports@, group@),
            reported(report, group@),
        { probe_address(*address, ports, connect, report) };
    let all = || -> (groups: Vec<Vec<ProbeOutcome>>)
        ensures
            groups@.len() == addresses@.len(),
            forall|i: int|
                0 <= i < addresses@.len() ==> probed(
                    connect,
                    addresses@[i],
                    ports@,
                    (#[trigger] groups@[i])@,
                ) && reported(report, groups@[i]@),
        { map_in_parallel(addresses, one) };
    let mut groups: Vec<Vec<ProbeOutcome>> = run_in_pool(pool, all);
    let ghost all = groups@;
    let mut outcomes: Vec<ProbeOutcome> = Vec::new();
    let mut i: usize = 0;
    while i < groups.len()
        invariant
            i <= groups@.len() == addresses@.len(),
            groups@.len() == all.len(),
            forall|g: int| i <= g < all.len() ==> groups@[g] == all[g],
            forall|g: int|
                0 <= g < all.len() ==> probed(connect, addresses@[g], ports@, (#[trigger] all[g])@)
                    && reported(report, all[g]@),
            outcomes@.len() == i * ports@.len(),
            reported(report, outcomes@),
            forall|k: int|
                0 <= k < outcomes@.len() ==> (#[trigger] outcomes@[k]).task == plan(
                    addresses@,
                    ports@,
                )[k] && answered(connect, outcomes@[k]),
        decreases groups@.len() - i,
    {
        let ghost before = outcomes@;
        let ghost group = groups@[i as int]@;
        outcomes.append(&mut groups[i]);
        proof {
            assert(group == all[i as int]@);
            let m = ports@.len() as int;
            assert((i + 1) * m == i * m + m) by (nonlinear_arith);
            assert forall|k: int| 0 <= k < outcomes@.len() implies (#[trigger] outcomes@[k]).task
                == plan(addresses@, ports@)[k] && answered(
                connect,
                outcomes@[k],
            ) by {
                if k >= before.len() {
                    plan_place(addresses@, ports@, i as int, k - i * m);
                }
            }
        }
        i += 1;
    }
    outcomes
}

/// Runs the scan in the pool that `built` holds, or gives up before any
/// connect attempt when `built` holds the reason why there is no pool.
pub fn probe_with<C, R>(
    built: Result<ThreadPool, ThreadPoolBuildError>,
    addresses: &Vec<Ipv4Address>,
    ports: &Vec<u16>,
    connect: &C,
    report: &R,
) -> (scan: Result<Vec<ProbeOutcome>, PoolError>) where
    C: Fn(Ipv4Address, u16) -> ConnectResult + Sync,
    R: Fn(&ProbeOutcome) -> () + Sync,

    requires
        forall|i: int, j: int|
            0 <= i < addresses@.len() && 0 <= j < ports@.len() ==> call_requires(
                *connect,
                (#[trigger] addresses@[i], #[trigger] ports@[j]),
            ),
        forall|outcome: ProbeOutcome| call_requires(*report, (&outcome,)),
    ensures
        scan is Ok <==> built is Ok,
        scan matches Ok(outcomes) ==> scanned(connect, addresses@, ports@, outcomes@) && reported(
            report,
            outcomes@,
        ),
{
    match built {
        Ok(pool) => Ok(probe_in(&pool, addresses, ports, connect, report)),
        Err(error) => Err(PoolError { reason: build_error_text(&error) }),
    }
}

/// Probes every port of `ports` on every address of `addresses` with a pool
/// of `concurrency` workers of its own; with `concurrency` 0 the pool picks
/// the number of workers itself. When the pool cannot be started, the scan
/// fails before any connect attempt; once it runs, no failed attempt stops
/// it. What is returned does not depend on the number of workers.
pub fn probe<C, R>(
    addresses: &Vec<Ipv4Address>,
    ports: &Vec<u16>,
    concurrency: usize,
    connect: &C,
    report: &R,
) -> (scan: Result<Vec<ProbeOutcome>, PoolError>) where
    C: Fn(Ipv4Address, u16) -> ConnectResult + Sync,
    R: Fn(&ProbeOutcome) -> () + Sync,

    requires
        forall|i: int, j: int|
            0 <= i < addresses@.len() && 0 <= j < ports@.len() ==> call_requires(
                *connect,
                (#[trigger] addresses@[i], #[trigger] ports@[j]),
            ),
        forall|outcome: ProbeOutcome| call_requires(*report, (&outcome,)),
    ensures
        scan matches Ok(outcomes) ==> scanned(connect, addresses@, ports@, outcomes@) && reported(
            report,
            outcomes@,
        ),
{
    probe_with(build_pool(concurrency), addresses, ports, connect, report)
}

} // verus!
