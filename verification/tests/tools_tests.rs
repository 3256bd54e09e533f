use std::cell::RefCell;

use rustworking_core::http::{HttpExchange, HttpStatus};
use rustworking_core::ping::{PingError, PingExchange, PingReply};
use rustworking_core::subnet::FatalError;
use rustworking_core::tools::{
    http_file, http_subnet, ping_file, ping_subnet, run_scan, QUEUE_CAPACITY,
};
use rustworking_core::http::Http;

fn answered(code: u16) -> HttpExchange {
    HttpExchange::Response { status: HttpStatus::new(code).unwrap(), headers: String::new() }
}

fn refused() -> HttpExchange {
    HttpExchange::Failed { reason: "connection refused".to_string() }
}

fn echo(dropped: u32) -> PingExchange {
    PingExchange::Sent(vec![PingReply {
        hostname: "host".to_string(),
        address: "10.0.0.1".to_string(),
        dropped,
        latency_ms: "2".to_string(),
        dump: String::new(),
    }])
}

#[test]
fn a_subnet_scan_probes_each_host_once_and_in_order() {
    let asked = RefCell::new(Vec::new());
    let results = http_subnet(false, "10.0.0.0/29", |ip: &str| {
        asked.borrow_mut().push(ip.to_string());
        answered(200)
    })
    .unwrap();
    let expected: Vec<String> = (1..=6).map(|octet| format!("10.0.0.{}", octet)).collect();
    assert_eq!(*asked.borrow(), expected);
    let targets: Vec<String> = results.into_iter().map(|r| r.unwrap().target).collect();
    assert_eq!(targets, expected);
}

#[test]
fn a_scan_longer_than_the_queue_loses_nothing() {
    let asked = RefCell::new(Vec::new());
    let results = http_subnet(false, "10.0.0.0/24", |ip: &str| {
        asked.borrow_mut().push(ip.to_string());
        answered(204)
    })
    .unwrap();
    assert!(254 > QUEUE_CAPACITY);
    assert_eq!(results.len(), 254);
    assert_eq!(asked.borrow().len(), 254);
    for (k, result) in results.iter().enumerate() {
        assert_eq!(result.as_ref().unwrap().target, format!("10.0.0.{}", k + 1));
        assert_eq!(asked.borrow()[k], format!("10.0.0.{}", k + 1));
    }
}

#[test]
fn result_count_is_target_count_whatever_fails() {
    for failing in [1usize, 2, 3, 7, 1000] {
        let calls = RefCell::new(0usize);
        let results = http_subnet(true, "192.168.7.40/27", |_: &str| {
            *calls.borrow_mut() += 1;
            if *calls.borrow() % failing == 0 {
                refused()
            } else {
                answered(500)
            }
        })
        .unwrap();
        assert_eq!(results.len(), 30);
        assert_eq!(*calls.borrow(), 30);
        let failures = results.iter().filter(|result| result.is_err()).count();
        assert_eq!(failures, 30 / failing);
        for (k, result) in results.iter().enumerate() {
            assert_eq!(result.is_err(), (k + 1) % failing == 0);
        }
    }
}

#[test]
fn a_subnet_that_cannot_be_enumerated_is_not_probed() {
    let calls = RefCell::new(0usize);
    let probe = |_: &str| {
        *calls.borrow_mut() += 1;
        answered(200)
    };
    assert_eq!(http_subnet(false, "10.0.0.1/16", &probe).err(), Some(FatalError::InvalidMaskBits));
    assert_eq!(http_subnet(false, "10.0.0.1", &probe).err(), Some(FatalError::MissingMask));
    assert_eq!(http_subnet(false, "10.0.0/24", &probe).err(), Some(FatalError::MalformedAddress));
    assert_eq!(http_subnet(false, "10.0.0.z/24", &probe).err(), Some(FatalError::InvalidOctet));
    let ping = |_: &str| echo(0);
    assert_eq!(ping_subnet(false, "10.0.0.1/31", ping).err(), Some(FatalError::InvalidMaskBits));
    assert_eq!(*calls.borrow(), 0);
}

#[test]
fn a_list_scan_probes_the_named_targets_in_line_order() {
    let asked = RefCell::new(Vec::new());
    let results = http_file(false, "1.1.1.1\n2.2.2.2:note\n\n", |ip: &str| {
        asked.borrow_mut().push(ip.to_string());
        if ip == "2.2.2.2" {
            refused()
        } else {
            answered(200)
        }
    });
    assert_eq!(*asked.borrow(), vec!["1.1.1.1", "2.2.2.2"]);
    assert_eq!(results.len(), 2);
    assert_eq!(results[0].as_ref().unwrap().detail, "Success from 1.1.1.1 - Status Code 200 OK");
    assert_eq!(
        results[1].as_ref().unwrap_err().description(),
        "Failure from 2.2.2.2 - connection refused"
    );
}

#[test]
fn an_empty_list_gives_an_empty_scan() {
    assert!(http_file(true, "", |_: &str| answered(200)).is_empty());
    assert!(ping_file(true, "\n\n", |_: &str| echo(0)).is_empty());
    assert!(run_scan::<Http, _>(false, Vec::new(), |_: &str| refused()).is_empty());
}

#[test]
fn a_ping_scan_tells_silence_from_failure() {
    let results = ping_file(false, "up\ndown:behind the firewall\nnowhere\n", |ip: &str| match ip {
        "up" => echo(0),
        "down" => echo(1),
        _ => PingExchange::HostRefused("Name or service not known".to_string()),
    });
    assert_eq!(results.len(), 3);
    let up = results[0].as_ref().unwrap();
    assert!(up.success);
    assert_eq!(up.target, "up");
    assert_eq!(up.detail, "Success from host - Response (address 10.0.0.1): latency 2 ms");
    let down = results[1].as_ref().unwrap();
    assert!(!down.success);
    assert_eq!(down.target, "down");
    assert_eq!(down.detail, "Failure from host - No response");
    match &results[2] {
        Err(PingError::CustomError(message)) => {
            assert_eq!(message, "Failure from nowhere - Name or service not known")
        },
        other => panic!("{:?}", other),
    }
}

#[test]
fn a_ping_subnet_scan_covers_the_block() {
    let results = ping_subnet(true, "10.1.2.130/30", |_: &str| echo(1)).unwrap();
    let targets: Vec<String> = results.into_iter().map(|r| r.unwrap().target).collect();
    assert_eq!(targets, vec!["10.1.2.129", "10.1.2.130"]);
}

#[test]
fn scanning_twice_gives_the_same_results() {
    let scan = || {
        http_subnet(false, "10.9.8.7/28", |ip: &str| {
            if ip.ends_with('3') {
                refused()
            } else {
                answered(301)
            }
        })
        .unwrap()
        .into_iter()
        .map(|result| match result {
            Ok(outcome) => (outcome.target, outcome.success, outcome.detail),
            Err(error) => (String::new(), false, error.render()),
        })
        .collect::<Vec<_>>()
    };
    assert_eq!(scan(), scan());
    assert_eq!(scan().len(), 14);
}
