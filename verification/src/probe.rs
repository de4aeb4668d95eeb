//! One connect attempt, its classification, and the walk over the ports of
//! one host.

use crate::address::Ipv4Address;
use vstd::arithmetic::div_mod::lemma_fundamental_div_mod_converse;
use vstd::prelude::*;

verus! {

/// Seconds a connect attempt may take before it counts as timed out.
pub const CONNECT_TIMEOUT_SECS: u64 = 5;

/// One address and one port to connect to.
#[derive(Clone, Copy, Debug, PartialEq, Eq, Structural, Hash)]
pub struct ProbeTask {
    pub address: Ipv4Address,
    pub port: u16,
}

/// Why a connect attempt failed.
#[derive(Clone, Copy, Debug, PartialEq, Eq, Structural, Hash)]
pub enum ConnectFailure {
    /// The timeout ran out before the connection stood.
    TimedOut,
    /// The peer refused the connection.
    Refused,
    /// No route to the host or to its network.
    NoRoute,
    /// Any other failure.
    Other,
}

/// How a connect attempt ended. A failure carries the system's own
/// description of the error.
#[derive(Clone, Debug, PartialEq, Eq)]
pub enum ConnectResult {
    /// The connection stood.
    Connected,
    /// The attempt failed; the text is the system's description of the error.
    Failed(ConnectFailure, String),
}

/// What a connect attempt says about a port.
#[derive(Clone, Debug, PartialEq, Eq)]
pub enum Verdict {
    /// The connection stood.
    Alive,
    /// The attempt ran into the timeout.
    TimedOut,
    /// The attempt failed for any other reason, which is carried along.
    Unreachable(String),
}

/// The verdict on one task.
#[derive(Clone, Debug, PartialEq, Eq)]
pub struct ProbeOutcome {
    pub task: ProbeTask,
    pub verdict: Verdict,
}

/// The verdict that a connect result stands for.
pub open spec fn verdict_of(result: ConnectResult) -> Verdict {
    match result {
        ConnectResult::Connected => Verdict::Alive,
        ConnectResult::Failed(ConnectFailure::TimedOut, _) => Verdict::TimedOut,
        ConnectResult::Failed(_, description) => Verdict::Unreachable(description),
    }
}

/// Classifies the end of a connect attempt.
pub fn classify(result: ConnectResult) -> (verdict: Verdict)
    ensures
        verdict == verdict_of(result),
{
    match result {
        ConnectResult::Connected => Verdict::Alive,
        ConnectResult::Failed(ConnectFailure::TimedOut, _) => Verdict::TimedOut,
        ConnectResult::Failed(_, description) => Verdict::Unreachable(description),
    }
}

/// `outcome` carries the verdict on some result that `connect` can give for
/// the outcome's own task.
pub open spec fn answered<C: Fn(Ipv4Address, u16) -> ConnectResult>(
    connect: &C,
    outcome: ProbeOutcome,
) -> bool {
    exists|result: ConnectResult|
        call_ensures(*connect, (outcome.task.address, outcome.task.port), result)
            && outcome.verdict == verdict_of(result)
}

/// `outcomes` holds one answered outcome for each of `ports` on `address`, in
/// the order of `ports`.
pub open spec fn probed<C: Fn(Ipv4Address, u16) -> ConnectResult>(
    connect: &C,
    address: Ipv4Address,
    ports: Seq<u16>,
    outcomes: Seq<ProbeOutcome>,
) -> bool {
    &&& outcomes.len() == ports.len()
    &&& forall|j: int|
        0 <= j < ports.len() ==> (#[trigger] outcomes[j]).task == (ProbeTask {
            address,
            port: ports[j],
        }) && answered(connect, outcomes[j])
}

/// Each of `outcomes` was handed to `report`, which returned.
pub open spec fn reported<R: Fn(&ProbeOutcome) -> ()>(
    report: &R,
    outcomes: Seq<ProbeOutcome>,
) -> bool {
    forall|k: int| 0 <= k < outcomes.len() ==> call_ensures(*report, (&#[trigger] outcomes[k],), ())
}

/// Connects to each of `ports` on `address`, one after the other and in the
/// order given. Each outcome is handed to `report` as soon as it is known.
pub fn probe_address<C, R>(
    address: Ipv4Address,
    ports: &Vec<u16>,
    connect: &C,
    report: &R,
) -> (outcomes: Vec<ProbeOutcome>) where
    C: Fn(Ipv4Address, u16) -> ConnectResult,
    R: Fn(&ProbeOutcome) -> (),

    requires
        forall|j: int| 0 <= j < ports@.len() ==> call_requires(*connect, (address, ports@[j])),
        forall|outcome: ProbeOutcome| call_requires(*report, (&outcome,)),
    ensures
        probed(connect, address, ports@, outcomes@),
        reported(report, outcomes@),
{
    let mut outcomes: Vec<ProbeOutcome> = Vec::new();
    let mut j: usize = 0;
    while j < ports.len()
        invariant
            j <= ports@.len(),
            forall|k: int| 0 <= k < ports@.len() ==> call_requires(*connect, (address, ports@[k])),
            forall|outcome: ProbeOutcome| call_requires(*report, (&outcome,)),
            probed(connect, address, ports@.take(j as int), outcomes@),
            reported(report, outcomes@),
        decreases ports@.len() - j,
    {
        let port: u16 = ports[j];
        let result = connect(address, port);
        let outcome = ProbeOutcome { task: ProbeTask { address, port }, verdict: classify(result) };
        report(&outcome);
        outcomes.push(outcome);
        j += 1;
    }
    outcomes
}

/// The tasks of a scan in their order: address by address, and for each
/// address port by port.
pub open spec fn plan(addresses: Seq<Ipv4Address>, ports: Seq<u16>) -> Seq<ProbeTask> {
    Seq::new(
        addresses.len() * ports.len(),
        |k: int|
            ProbeTask {
                address: addresses[k / (ports.len() as int)],
                port: ports[k % (ports.len() as int)],
            },
    )
}

/// `outcomes` holds exactly one answered outcome for each task of the plan,
/// at the task's own place.
pub open spec fn scanned<C: Fn(Ipv4Address, u16) -> ConnectResult>(
    connect: &C,
    addresses: Seq<Ipv4Address>,
    ports: Seq<u16>,
    outcomes: Seq<ProbeOutcome>,
) -> bool {
    &&& outcomes.len() == addresses.len() * ports.len()
    &&& forall|k: int|
        0 <= k < outcomes.len() ==> (#[trigger] outcomes[k]).task == plan(addresses, ports)[k]
            && answered(connect, outcomes[k])
}

/// The task of the `i`-th address and the `j`-th port stands at place
/// `i * ports.len() + j` of the plan.
pub proof fn plan_place(addresses: Seq<Ipv4Address>, ports: Seq<u16>, i: int, j: int)
    requires
        0 <= i < addresses.len(),
        0 <= j < ports.len(),
    ensures
        0 <= i * ports.len() + j < plan(addresses, ports).len(),
        plan(addresses, ports)[i * ports.len() + j] == (ProbeTask {
            address: addresses[i],
            port: ports[j],
        }),
{
    let m = ports.len() as int;
    let n = addresses.len() as int;
    assert(0 <= i * m && i * m + m <= n * m) by (nonlinear_arith)
        requires
            0 <= i < n,
            0 < m,
    ;
    lemma_fundamental_div_mod_converse(i * m + j, m, i, j);
}

/// The outcome at place `i * ports.len() + j` is an answered one for the
/// `i`-th address and the `j`-th port.
pub open spec fn pair_answered<C: Fn(Ipv4Address, u16) -> ConnectResult>(
    connect: &C,
    addresses: Seq<Ipv4Address>,
    ports: Seq<u16>,
    outcomes: Seq<ProbeOutcome>,
    i: int,
    j: int,
) -> bool {
    let place = i * ports.len() + j;
    &&& 0 <= place < outcomes.len()
    &&& outcomes[place].task == (ProbeTask { address: addresses[i], port: ports[j] })
    &&& answered(connect, outcomes[place])
}

/// A scan of N addresses and M ports holds N times M outcomes, and the
/// outcome of the `i`-th address and the `j`-th port is the one at place
/// `i * M + j`: every pair has its outcome, and no place is left for another.
pub proof fn scan_covers_every_pair<C: Fn(Ipv4Address, u16) -> ConnectResult>(
    connect: &C,
    addresses: Seq<Ipv4Address>,
    ports: Seq<u16>,
    outcomes: Seq<ProbeOutcome>,
)
    requires
        scanned(connect, addresses, ports, outcomes),
    ensures
        outcomes.len() == addresses.len() * ports.len(),
        forall|i: int, j: int|
            0 <= i < addresses.len() && 0 <= j < ports.len() ==> #[trigger] pair_answered(
                connect,
                addresses,
                ports,
                outcomes,
                i,
                j,
            ),
{
    assert forall|i: int, j: int|
        0 <= i < addresses.len() && 0 <= j < ports.len() implies #[trigger] pair_answered(
        connect,
        addresses,
        ports,
        outcomes,
        i,
        j,
    ) by {
        plan_place(addresses, ports, i, j);
    }
}

/// `connect` can give only one result for a task.
pub open spec fn single_valued<C: Fn(Ipv4Address, u16) -> ConnectResult>(connect: &C) -> bool {
    forall|address: Ipv4Address, port: u16, first: ConnectResult, second: ConnectResult|
        (#[trigger] call_ensures(*connect, (address, port), first)) && (#[trigger] call_ensures(
            *connect,
            (address, port),
            second,
        )) ==> first == second
}

/// Where connecting gives only one result for a task, two scans of the same
/// addresses and ports hold the same outcomes, with whatever number of
/// workers each of them ran: the contract of a scan does not speak of it.
pub proof fn scans_agree<C: Fn(Ipv4Address, u16) -> ConnectResult>(
    connect: &C,
    addresses: Seq<Ipv4Address>,
    ports: Seq<u16>,
    first: Seq<ProbeOutcome>,
    second: Seq<ProbeOutcome>,
)
    requires
        single_valued(connect),
        scanned(connect, addresses, ports, first),
        scanned(connect, addresses, ports, second),
    ensures
        first == second,
        first.to_multiset() == second.to_multiset(),
{
    assert forall|k: int| 0 <= k < first.len() implies first[k] == second[k] by {
        // Both hold the verdict on a result of the same task, and there is
        // only one such result.
        assert(first[k].task == second[k].task);
        assert(answered(connect, first[k]) && answered(connect, second[k]));
    }
    assert(first =~= second);
}

} // verus!
