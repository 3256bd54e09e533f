use rustworking_core::http::{Http, HttpExchange, HttpStatus};
use rustworking_core::ping::{Icmp, PingError, PingExchange, PingReply};
use rustworking_core::scan::{Offer, Scan, Step};
use rustworking_core::subnet::process_subnet;

fn answered(code: u16) -> HttpExchange {
    HttpExchange::Response { status: HttpStatus::new(code).unwrap(), headers: String::new() }
}

fn refused() -> HttpExchange {
    HttpExchange::Failed { reason: "connection refused".to_string() }
}

fn take(scan: &Scan<Http>) -> String {
    match scan.next() {
        Step::Probe(target) => target,
        other => panic!("{:?}", other),
    }
}

#[test]
fn a_fresh_scan_waits() {
    let scan: Scan<Http> = Scan::new(true, 4);
    assert!(matches!(scan.next(), Step::Wait));
    assert!(scan.finish().is_err());
}

#[test]
fn an_empty_closed_scan_is_finished_with_no_results() {
    let mut scan: Scan<Http> = Scan::new(false, 4);
    scan.close();
    assert!(matches!(scan.next(), Step::Finished));
    let results = scan.finish().ok().unwrap();
    assert!(results.is_empty());
}

#[test]
fn targets_leave_in_the_order_they_came() {
    let mut scan: Scan<Http> = Scan::new(false, 8);
    for target in ["c", "a", "b"] {
        assert!(matches!(scan.offer(target.to_string()), Offer::Accepted));
    }
    scan.close();
    let mut seen = Vec::new();
    loop {
        match scan.next() {
            Step::Probe(target) => {
                seen.push(target);
                assert!(scan.record(answered(200)).is_none());
            },
            Step::Wait => panic!("a closed scan never waits"),
            Step::Finished => break,
        }
    }
    assert_eq!(seen, vec!["c", "a", "b"]);
    let results = scan.finish().ok().unwrap();
    let targets: Vec<String> = results.into_iter().map(|r| r.unwrap().target).collect();
    assert_eq!(targets, vec!["c", "a", "b"]);
}

#[test]
fn the_target_stays_in_front_until_its_result_is_recorded() {
    let mut scan: Scan<Http> = Scan::new(false, 2);
    scan.offer("a".to_string());
    scan.offer("b".to_string());
    assert_eq!(take(&scan), "a");
    assert_eq!(take(&scan), "a");
    scan.record(refused());
    assert_eq!(take(&scan), "b");
}

#[test]
fn a_full_queue_hands_the_target_back() {
    let mut scan: Scan<Http> = Scan::new(false, 2);
    assert!(matches!(scan.offer("a".to_string()), Offer::Accepted));
    assert!(matches!(scan.offer("b".to_string()), Offer::Accepted));
    match scan.offer("c".to_string()) {
        Offer::Full(back) => assert_eq!(back, "c"),
        other => panic!("{:?}", other),
    }
    scan.record(answered(204));
    assert!(matches!(scan.offer("c".to_string()), Offer::Accepted));
}

#[test]
fn a_queue_without_room_accepts_nothing() {
    let mut scan: Scan<Http> = Scan::new(false, 0);
    assert!(matches!(scan.offer("a".to_string()), Offer::Full(_)));
    assert!(matches!(scan.next(), Step::Wait));
}

#[test]
fn a_closed_scan_hands_the_target_back() {
    let mut scan: Scan<Http> = Scan::new(false, 2);
    scan.offer("a".to_string());
    scan.close();
    scan.close();
    match scan.offer("b".to_string()) {
        Offer::Closed(back) => assert_eq!(back, "b"),
        other => panic!("{:?}", other),
    }
    assert_eq!(take(&scan), "a");
    scan.record(answered(200));
    assert_eq!(scan.finish().ok().unwrap().len(), 1);
}

#[test]
fn a_result_without_a_target_is_refused() {
    let mut scan: Scan<Http> = Scan::new(false, 2);
    match scan.record(refused()) {
        Some(HttpExchange::Failed { reason }) => assert_eq!(reason, "connection refused"),
        other => panic!("{:?}", other),
    }
    scan.close();
    assert!(scan.finish().ok().unwrap().is_empty());
    let mut pings: Scan<Icmp> = Scan::new(false, 2);
    assert!(pings.record(PingExchange::Sent(Vec::new())).is_some());
}

#[test]
fn an_unfinished_scan_comes_back_untouched() {
    let mut scan: Scan<Http> = Scan::new(false, 2);
    scan.offer("a".to_string());
    scan.close();
    let mut scan = match scan.finish() {
        Err(scan) => scan,
        Ok(_) => panic!("one target is still queued"),
    };
    assert_eq!(take(&scan), "a");
    scan.record(answered(200));
    assert_eq!(scan.finish().ok().unwrap().len(), 1);
}

#[test]
fn every_target_gets_a_result_however_many_probes_fail() {
    let targets = process_subnet("10.0.0.0/28").unwrap();
    for failing in [0usize, 1, 2, 3] {
        let mut scan: Scan<Http> = Scan::new(false, 3);
        let mut waiting = targets.clone().into_iter();
        let mut held: Option<String> = None;
        let mut probes = 0usize;
        loop {
            loop {
                let target = match held.take().or_else(|| waiting.next()) {
                    Some(target) => target,
                    None => {
                        scan.close();
                        break;
                    },
                };
                match scan.offer(target) {
                    Offer::Accepted => {},
                    Offer::Full(back) | Offer::Closed(back) => {
                        held = Some(back);
                        break;
                    },
                }
            }
            match scan.next() {
                Step::Probe(_) => {
                    probes += 1;
                    let exchange = if failing != 0 && probes % failing == 0 {
                        refused()
                    } else {
                        answered(200)
                    };
                    assert!(scan.record(exchange).is_none());
                },
                Step::Wait => {},
                Step::Finished => break,
            }
        }
        let results = scan.finish().ok().unwrap();
        assert_eq!(results.len(), targets.len());
        assert_eq!(results.len(), 14);
        for (k, result) in results.iter().enumerate() {
            let fails = failing != 0 && (k + 1) % failing == 0;
            assert_eq!(result.is_err(), fails);
            if let Ok(outcome) = result {
                assert_eq!(outcome.target, targets[k]);
            }
        }
    }
}

#[test]
fn a_failed_probe_does_not_stop_the_others() {
    let mut scan: Scan<Http> = Scan::new(true, 4);
    scan.offer("1.1.1.1".to_string());
    scan.offer("2.2.2.2".to_string());
    scan.offer("3.3.3.3".to_string());
    scan.close();
    scan.record(answered(200));
    scan.record(refused());
    scan.record(answered(503));
    let results = scan.finish().ok().unwrap();
    assert_eq!(results.len(), 3);
    assert_eq!(
        results[0].as_ref().unwrap().detail,
        "Success from 1.1.1.1 - Status Code 200 OK - Headers "
    );
    assert_eq!(
        results[1].as_ref().unwrap_err().description(),
        "Failure from 2.2.2.2 - connection refused"
    );
    assert!(results[2].as_ref().unwrap().success);
    assert_eq!(results[2].as_ref().unwrap().target, "3.3.3.3");
}

#[test]
fn a_ping_scan_keeps_negative_results_apart_from_errors() {
    let mut scan: Scan<Icmp> = Scan::new(false, 4);
    scan.offer("up".to_string());
    scan.offer("down".to_string());
    scan.offer("nowhere".to_string());
    scan.close();
    let reply = |dropped: u32| PingReply {
        hostname: "host".to_string(),
        address: "10.0.0.1".to_string(),
        dropped,
        latency_ms: "1.5".to_string(),
        dump: String::new(),
    };
    assert!(scan.record(PingExchange::Sent(vec![reply(0)])).is_none());
    assert!(scan.record(PingExchange::Sent(vec![reply(1)])).is_none());
    assert!(scan.record(PingExchange::HostRefused("no route".to_string())).is_none());
    let results = scan.finish().ok().unwrap();
    assert_eq!(results.len(), 3);
    assert!(results[0].as_ref().unwrap().success);
    assert_eq!(results[0].as_ref().unwrap().target, "up");
    assert!(!results[1].as_ref().unwrap().success);
    assert_eq!(results[1].as_ref().unwrap().detail, "Failure from host - No response");
    match &results[2] {
        Err(PingError::CustomError(message)) => {
            assert_eq!(message, "Failure from nowhere - no route")
        },
        other => panic!("{:?}", other),
    }
}
