use cidr_probe::address::Ipv4Address;
use cidr_probe::config::ScanConfig;
use cidr_probe::pool::{probe, probe_in, probe_with, PoolError, DEFAULT_CONCURRENCY};
use cidr_probe::probe::{
    classify, probe_address, ConnectFailure, ConnectResult, ProbeOutcome, ProbeTask, Verdict,
    CONNECT_TIMEOUT_SECS,
};
use cidr_probe::range::{cidr_to_ips, ParseError};
use std::sync::Mutex;

/// A connect result that depends on the task alone.
fn staged(address: Ipv4Address, port: u16) -> ConnectResult {
    if port == 22 {
        ConnectResult::Connected
    } else if port == 81 {
        ConnectResult::Failed(ConnectFailure::TimedOut, String::from("connection timed out"))
    } else if address.to_bits() % 2 == 0 {
        ConnectResult::Failed(ConnectFailure::Refused, String::from("Connection refused"))
    } else {
        ConnectResult::Failed(ConnectFailure::NoRoute, String::from("No route to host"))
    }
}

fn expected(address: Ipv4Address, port: u16) -> ProbeOutcome {
    let verdict = if port == 22 {
        Verdict::Alive
    } else if port == 81 {
        Verdict::TimedOut
    } else if address.to_bits() % 2 == 0 {
        Verdict::Unreachable(String::from("Connection refused"))
    } else {
        Verdict::Unreachable(String::from("No route to host"))
    };
    ProbeOutcome { task: ProbeTask { address, port }, verdict }
}

fn sorted(mut outcomes: Vec<ProbeOutcome>) -> Vec<ProbeOutcome> {
    outcomes.sort_by_key(|outcome| (outcome.task.address.to_bits(), outcome.task.port));
    outcomes
}

#[test]
fn a_connection_that_stood_is_alive() {
    assert_eq!(classify(ConnectResult::Connected), Verdict::Alive);
}

#[test]
fn a_timeout_is_timed_out_and_drops_the_description() {
    let result = ConnectResult::Failed(ConnectFailure::TimedOut, String::from("timed out"));
    assert_eq!(classify(result), Verdict::TimedOut);
}

#[test]
fn any_other_failure_is_unreachable_with_its_description() {
    for (failure, text) in [
        (ConnectFailure::Refused, "Connection refused (os error 111)"),
        (ConnectFailure::NoRoute, "No route to host (os error 113)"),
        (ConnectFailure::Other, "Permission denied (os error 13)"),
    ] {
        let result = ConnectResult::Failed(failure, String::from(text));
        assert_eq!(classify(result), Verdict::Unreachable(String::from(text)));
    }
}

#[test]
fn a_refused_connection_is_unreachable_not_timed_out() {
    let refused = ConnectResult::Failed(ConnectFailure::Refused, String::from("Connection refused"));
    let verdict = classify(refused);
    assert_ne!(verdict, Verdict::TimedOut);
    assert_eq!(verdict, Verdict::Unreachable(String::from("Connection refused")));
}

#[test]
fn the_ports_of_one_address_are_tried_in_order() {
    let address = Ipv4Address::new(10, 0, 0, 2);
    let ports = vec![443, 22, 81, 22];
    let tried = Mutex::new(Vec::new());
    let told = Mutex::new(Vec::new());
    let connect = |address: Ipv4Address, port: u16| {
        tried.lock().unwrap().push((address, port));
        staged(address, port)
    };
    let report = |outcome: &ProbeOutcome| told.lock().unwrap().push(outcome.clone());
    let outcomes = probe_address(address, &ports, &connect, &report);
    let wanted: Vec<ProbeOutcome> = ports.iter().map(|port| expected(address, *port)).collect();
    assert_eq!(outcomes, wanted);
    assert_eq!(told.into_inner().unwrap(), wanted);
    assert_eq!(tried.into_inner().unwrap(), vec![
        (address, 443), (address, 22), (address, 81), (address, 22),
    ]);
}

#[test]
fn no_ports_means_no_attempts() {
    let connect = |_: Ipv4Address, _: u16| -> ConnectResult { panic!("nothing to connect to") };
    let report = |_: &ProbeOutcome| panic!("nothing to report");
    assert_eq!(probe_address(Ipv4Address::new(10, 0, 0, 1), &vec![], &connect, &report), vec![]);
    let addresses = cidr_to_ips("10.0.0.0/29");
    assert_eq!(probe(&addresses, &vec![], 2, &connect, &report), Ok(vec![]));
    assert_eq!(probe(&vec![], &vec![80, 443], 2, &connect, &report), Ok(vec![]));
}

#[test]
fn every_pair_gets_exactly_one_outcome_in_plan_order() {
    let addresses = cidr_to_ips("10.0.0.0/28");
    let ports = vec![22, 80, 81];
    assert_eq!(addresses.len(), 14);
    for workers in [1usize, 2, 3, 8, 14] {
        let told = Mutex::new(Vec::new());
        let report = |outcome: &ProbeOutcome| told.lock().unwrap().push(outcome.clone());
        let outcomes = probe(&addresses, &ports, workers, &staged, &report).unwrap();
        assert_eq!(outcomes.len(), 14 * 3);
        for (i, address) in addresses.iter().enumerate() {
            for (j, port) in ports.iter().enumerate() {
                assert_eq!(outcomes[i * 3 + j], expected(*address, *port));
            }
        }
        let told = told.into_inner().unwrap();
        assert_eq!(told.len(), 14 * 3);
        assert_eq!(sorted(told), sorted(outcomes));
    }
}

#[test]
fn the_number_of_workers_does_not_change_the_outcomes() {
    let addresses = cidr_to_ips("192.168.0.0/26");
    let ports = vec![22, 443, 81, 8080];
    let quiet = |_: &ProbeOutcome| ();
    let with_one = probe(&addresses, &ports, 1, &staged, &quiet).unwrap();
    let with_eight = probe(&addresses, &ports, 8, &staged, &quiet).unwrap();
    assert_eq!(with_one.len(), 62 * 4);
    assert_eq!(with_one, with_eight);
    assert_eq!(sorted(with_one), sorted(with_eight));
}

#[test]
fn each_worker_reports_the_ports_of_its_address_in_order() {
    let addresses = cidr_to_ips("10.0.0.0/27");
    let ports = vec![81, 22, 9];
    let told = Mutex::new(Vec::new());
    let report = |outcome: &ProbeOutcome| told.lock().unwrap().push(outcome.task);
    probe(&addresses, &ports, 4, &staged, &report).unwrap();
    let told = told.into_inner().unwrap();
    for address in &addresses {
        let of_address: Vec<u16> =
            told.iter().filter(|task| task.address == *address).map(|task| task.port).collect();
        assert_eq!(of_address, ports);
    }
}

#[test]
fn duplicate_ports_are_probed_again() {
    let addresses = vec![Ipv4Address::new(10, 0, 0, 1)];
    let ports = vec![22, 22];
    let quiet = |_: &ProbeOutcome| ();
    let outcomes = probe(&addresses, &ports, 4, &staged, &quiet).unwrap();
    assert_eq!(outcomes, vec![expected(addresses[0], 22), expected(addresses[0], 22)]);
}

#[test]
fn zero_workers_leaves_the_number_to_the_pool() {
    let addresses = cidr_to_ips("10.0.0.0/29");
    let quiet = |_: &ProbeOutcome| ();
    let outcomes = probe(&addresses, &vec![22], 0, &staged, &quiet).unwrap();
    assert_eq!(outcomes.len(), 6);
}

#[test]
fn a_given_pool_runs_the_scan() {
    let pool = rayon::ThreadPoolBuilder::new().num_threads(3).build().unwrap();
    let addresses = cidr_to_ips("10.0.0.0/29");
    let ports = vec![80, 22];
    let quiet = |_: &ProbeOutcome| ();
    let outcomes = probe_in(&pool, &addresses, &ports, &staged, &quiet);
    let mut wanted = Vec::new();
    for address in &addresses {
        for port in &ports {
            wanted.push(expected(*address, *port));
        }
    }
    assert_eq!(outcomes, wanted);
    let again = probe_with(Ok(pool), &addresses, &ports, &staged, &quiet);
    assert_eq!(again, Ok(wanted));
}

#[test]
fn without_a_pool_nothing_is_probed() {
    let first = rayon::ThreadPoolBuilder::new().build_global();
    let second = rayon::ThreadPoolBuilder::new().build_global();
    let error = match (first, second) {
        (_, Err(error)) => error,
        (Err(error), _) => error,
        _ => panic!("the global pool was started twice"),
    };
    let connect = |_: Ipv4Address, _: u16| -> ConnectResult { panic!("no attempt is due") };
    let report = |_: &ProbeOutcome| panic!("nothing to report");
    let addresses = cidr_to_ips("10.0.0.0/29");
    let scan = probe_with(Err(error), &addresses, &vec![22], &connect, &report);
    assert_eq!(scan, Err(PoolError {
        reason: String::from("The global thread pool has already been initialized."),
    }));
}

#[test]
fn a_bad_range_makes_an_empty_scan() {
    let addresses = cidr_to_ips("10.0.0.0/40");
    let told = Mutex::new(0usize);
    let report = |_: &ProbeOutcome| *told.lock().unwrap() += 1;
    assert_eq!(probe(&addresses, &vec![22, 80], 4, &staged, &report), Ok(vec![]));
    assert_eq!(told.into_inner().unwrap(), 0);
}

#[test]
fn settings_default_to_four_workers_and_five_seconds() {
    assert_eq!(DEFAULT_CONCURRENCY, 4);
    assert_eq!(CONNECT_TIMEOUT_SECS, 5);
    let config = ScanConfig::new(String::from("10.0.0.0/30"), vec![22, 80]);
    assert_eq!(config.range, "10.0.0.0/30");
    assert_eq!(config.ports, vec![22, 80]);
    assert_eq!(config.concurrency, 4);
    assert_eq!(config.connect_timeout_secs, 5);
    let wider = config.clone().with_concurrency(8);
    assert_eq!(wider.concurrency, 8);
    assert_eq!(wider.range, config.range);
    assert_eq!(wider.ports, config.ports);
    assert_eq!(wider.connect_timeout_secs, 5);
}

#[test]
fn settings_drive_both_steps() {
    let config = ScanConfig::new(String::from("10.0.0.0/30"), vec![22, 80]).with_concurrency(2);
    let addresses = config.targets().unwrap();
    assert_eq!(addresses, vec![Ipv4Address::new(10, 0, 0, 1), Ipv4Address::new(10, 0, 0, 2)]);
    let quiet = |_: &ProbeOutcome| ();
    let outcomes = config.run(&addresses, &staged, &quiet).unwrap();
    assert_eq!(outcomes, vec![
        expected(addresses[0], 22),
        expected(addresses[0], 80),
        expected(addresses[1], 22),
        expected(addresses[1], 80),
    ]);
    let bad = ScanConfig::new(String::from("10.0.0.0"), vec![22]);
    assert_eq!(bad.targets(), Err(ParseError::Malformed));
}
