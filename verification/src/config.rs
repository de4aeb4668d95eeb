//! The settings of one scan.

use crate::address::Ipv4Address;
use crate::pool::{probe, PoolError, DEFAULT_CONCURRENCY};
use crate::probe::{reported, scanned, ConnectResult, ProbeOutcome, CONNECT_TIMEOUT_SECS};
use crate::range::{expand, expansion, ParseError};
use vstd::prelude::*;
use vstd::utf8::encode_utf8;

verus! {

/// What to scan and how: the range in CIDR text, the ports to try on each
/// host, the number of workers, and the seconds one connect attempt may take.
#[derive(Clone, Debug, PartialEq, Eq)]
pub struct ScanConfig {
    pub range: String,
    pub ports: Vec<u16>,
    pub concurrency: usize,
    pub connect_timeout_secs: u64,
}

impl ScanConfig {
    /// The settings for `range` and `ports` with the default number of
    /// workers and the default timeout.
    pub fn new(range: String, ports: Vec<u16>) -> (config: ScanConfig)
        ensures
            config.range == range,
            config.ports == ports,
            config.concurrency == DEFAULT_CONCURRENCY,
            config.connect_timeout_secs == CONNECT_TIMEOUT_SECS,
    {
        ScanConfig {
            range,
            ports,
            concurrency: DEFAULT_CONCURRENCY,
            connect_timeout_secs: CONNECT_TIMEOUT_SECS,
        }
    }

    /// The same settings with `concurrency` workers.
    pub fn with_concurrency(self, concurrency: usize) -> (config: ScanConfig)
        ensures
            config.range == self.range,
            config.ports == self.ports,
            config.concurrency == concurrency,
            config.connect_timeout_secs == self.connect_timeout_secs,
    {
        ScanConfig {
            range: self.range,
            ports: self.ports,
            concurrency,
            connect_timeout_secs: self.connect_timeout_secs,
        }
    }

    /// The hosts of the configured range, by ascending offset, or the reason
    /// why the configured text is no range.
    pub fn targets(&self) -> (expanded: Result<Vec<Ipv4Address>, ParseError>)
        ensures
            match expanded {
                Ok(list) => expansion(encode_utf8(self.range@)) == Ok::<
                    Seq<Ipv4Address>,
                    ParseError,
                >(list@),
                Err(reason) => expansion(encode_utf8(self.range@)) == Err::<
                    Seq<Ipv4Address>,
                    ParseError,
                >(reason),
            },
    {
        expand(self.range.as_str())
    }

    /// Probes the configured ports on each of `addresses` with the
    /// configured number of workers.
    pub fn run<C, R>(&self, addresses: &Vec<Ipv4Address>, connect: &C, report: &R) -> (scan: Result<
        Vec<ProbeOutcome>,
        PoolError,
    >) where
        C: Fn(Ipv4Address, u16) -> ConnectResult + Sync,
        R: Fn(&ProbeOutcome) -> () + Sync,

        requires
            forall|i: int, j: int|
                0 <= i < addresses@.len() && 0 <= j < self.ports@.len() ==> call_requires(
                    *connect,
                    (#[trigger] addresses@[i], #[trigger] self.ports@[j]),
                ),
            forall|outcome: ProbeOutcome| call_requires(*report, (&outcome,)),
        ensures
            scan matches Ok(outcomes) ==> scanned(connect, addresses@, self.ports@, outcomes@)
                && reported(report, outcomes@),
    {
        probe(addresses, &self.ports, self.concurrency, connect, report)
    }
}

} // verus!
