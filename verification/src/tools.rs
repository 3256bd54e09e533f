//! The scanner's entry points: each wires a target source to a probe
//! strategy and runs the scan pipeline to its end.
//!
//! The exchange with a target is the caller's: every entry point takes a
//! function that performs it. Whatever that function returns, each
//! target gets exactly one result, in the order the source gave the
//! targets.
//!
//! Generation and probing take turns on the calling thread: targets are
//! generated until the queue is full, then the target at its front is
//! probed. No probe runs beside another.

use vstd::prelude::*;
use vstd::string::*;
use crate::http::{Http, HttpExchange};
use crate::outcome::ProbeOutcome;
use crate::ping::{Icmp, PingError, PingExchange};
use crate::probe::ProbeStrategy;
use crate::scan::{Offer, Scan, Step};
use crate::subnet::{process_subnet, subnet_targets, FatalError};
use crate::targets::{file_targets, read_file};
use crate::text::texts;
use crate::HttpResult;

verus! {

/// How many targets may wait between generation and probing.
pub const QUEUE_CAPACITY: usize = 16;

/// Whether `result` is the strategy's reading of an exchange that `probe`
/// made with `target`.
pub open spec fn probed<S: ProbeStrategy, P: Fn(&str) -> S::Exchange>(
    verbose: bool,
    probe: P,
    target: Seq<char>,
    result: Result<ProbeOutcome, S::Failure>,
) -> bool {
    exists|asked: &str, exchange: S::Exchange|
        asked@ == target && call_ensures(probe, (asked,), exchange) && S::classifies(
            verbose,
            target,
            exchange,
            result,
        )
}

/// Whether `results` holds one result for each of `targets`, in order,
/// each the strategy's reading of an exchange that `probe` made with its
/// target.
pub open spec fn scanned<S: ProbeStrategy, P: Fn(&str) -> S::Exchange>(
    verbose: bool,
    probe: P,
    targets: Seq<Seq<char>>,
    results: Seq<Result<ProbeOutcome, S::Failure>>,
) -> bool {
    &&& results.len() == targets.len()
    &&& forall|i: int|
        0 <= i < targets.len() ==> probed::<S, P>(verbose, probe, targets[i], #[trigger] results[i])
}

/// Probes a single address over HTTP.
pub fn http_ip<P: Fn(&str) -> HttpExchange>(verbose: bool, ip: &str, probe: P) -> (result:
    HttpResult<ProbeOutcome>)
    requires
        call_requires(probe, (ip,)),
    ensures
        probed::<Http, P>(verbose, probe, ip@, result),
{
    Http::classify(verbose, ip, probe(ip))
}

/// Pings a single address.
pub fn ping_ip<P: Fn(&str) -> PingExchange>(verbose: bool, ip: &str, probe: P) -> (result: Result<
    ProbeOutcome,
    PingError,
>)
    requires
        call_requires(probe, (ip,)),
    ensures
        probed::<Icmp, P>(verbose, probe, ip@, result),
{
    Icmp::classify(verbose, ip, probe(ip))
}

/// Runs one scan to its end: targets are handed off through the queue as
/// far as it has room, and the target at its front is probed and
/// recorded, until the source is exhausted and the queue drained.
pub fn run_scan<S: ProbeStrategy, P: Fn(&str) -> S::Exchange>(
    verbose: bool,
    targets: Vec<String>,
    probe: P,
) -> (results: Vec<Result<ProbeOutcome, S::Failure>>)
    requires
        forall|asked: &str| call_requires(probe, (asked,)),
    ensures
        scanned::<S, P>(verbose, probe, texts(targets@), results@),
{
    let mut scan: Scan<S> = Scan::new(verbose, QUEUE_CAPACITY);
    let count = targets.len();
    let mut offered: usize = 0;
    let mut closed = false;
    assert(texts(targets@).take(0) =~= scan.produced());
    loop
        invariant
            forall|asked: &str| call_requires(probe, (asked,)),
            count == targets.len(),
            offered <= count,
            scan.wf(),
            scan.capacity() == QUEUE_CAPACITY,
            scan.is_verbose() == verbose,
            scan.is_closed() == closed,
            closed ==> offered == count,
            scan.produced() == texts(targets@).take(offered as int),
            forall|i: int|
                0 <= i < scan.results().len() ==> probed::<S, P>(
                    verbose,
                    probe,
                    texts(targets@)[i],
                    #[trigger] scan.results()[i],
                ),
        ensures
            scan.complete(),
        decreases count - scan.results().len(),
    {
        let mut room = !closed;
        let ghost recorded = scan.results();
        while room && offered < count
            invariant
                count == targets.len(),
                offered <= count,
                scan.wf(),
                scan.capacity() == QUEUE_CAPACITY,
                scan.is_verbose() == verbose,
                scan.is_closed() == closed,
                room ==> !closed,
                closed ==> offered == count,
                !room && !closed ==> scan.pending().len() >= QUEUE_CAPACITY,
                scan.produced() == texts(targets@).take(offered as int),
                scan.results() == recorded,
            decreases count - offered + (if room { 1int } else { 0int }),
        {
            match scan.offer(targets[offered].clone()) {
                Offer::Accepted => {
                    assert(texts(targets@).take(offered + 1) =~= texts(targets@).take(
                        offered as int,
                    ).push(targets@[offered as int]@));
                    offered += 1;
                },
                Offer::Full(_) => {
                    room = false;
                },
                Offer::Closed(_) => {
                    room = false;
                },
            }
        }
        if offered == count && !closed {
            scan.close();
            closed = true;
        }
        match scan.next() {
            Step::Probe(target) => {
                let asked = target.as_str();
                let exchange = probe(asked);
                let ghost given = exchange;
                let ghost done = scan.results().len() as int;
                let ghost before = scan.results();
                assert(scan.pending()[0] == texts(targets@)[done]) by {
                    let handed = scan.produced();
                    assert(handed[done] == (handed.take(done) + scan.pending())[done]);
                }
                let refused = scan.record(exchange);
                proof {
                    assert(S::classifies(verbose, asked@, given, scan.results().last()));
                    assert(probed::<S, P>(
                        verbose,
                        probe,
                        texts(targets@)[done],
                        scan.results()[done],
                    ));
                    assert forall|i: int| 0 <= i < scan.results().len() implies probed::<S, P>(
                        verbose,
                        probe,
                        texts(targets@)[i],
                        #[trigger] scan.results()[i],
                    ) by {
                        if i < done {
                            assert(scan.results()[i] == before[i]);
                        }
                    }
                }
            },
            // An open scan whose source has more to give had room for it.
            Step::Wait => vstd::pervasive::unreached(),
            Step::Finished => {
                break ;
            },
        }
    }
    assert(texts(targets@).take(count as int) =~= texts(targets@));
    match scan.finish() {
        Ok(results) => results,
        Err(_) => vstd::pervasive::unreached(),
    }
}

/// Probes every host address of a subnet over HTTP, in ascending order.
/// A subnet that cannot be enumerated is an error, and then no probe is
/// made.
pub fn http_subnet<P: Fn(&str) -> HttpExchange>(verbose: bool, subnet: &str, probe: P) -> (scan:
    Result<Vec<HttpResult<ProbeOutcome>>, FatalError>)
    requires
        forall|asked: &str| call_requires(probe, (asked,)),
    ensures
        match scan {
            Ok(results) => subnet_targets(subnet@) is Ok && scanned::<Http, P>(
                verbose,
                probe,
                subnet_targets(subnet@).unwrap(),
                results@,
            ),
            Err(e) => subnet_targets(subnet@) == Err::<Seq<Seq<char>>, FatalError>(e),
        },
{
    match process_subnet(subnet) {
        Ok(targets) => Ok(run_scan::<Http, P>(verbose, targets, probe)),
        Err(e) => Err(e),
    }
}

/// Probes over HTTP every target that the text of an address list names,
/// in line order.
pub fn http_file<P: Fn(&str) -> HttpExchange>(verbose: bool, contents: &str, probe: P) -> (results:
    Vec<HttpResult<ProbeOutcome>>)
    requires
        forall|asked: &str| call_requires(probe, (asked,)),
    ensures
        scanned::<Http, P>(verbose, probe, file_targets(contents@), results@),
{
    run_scan::<Http, P>(verbose, read_file(contents), probe)
}

/// Pings every host address of a subnet, in ascending order. A subnet
/// that cannot be enumerated is an error, and then no probe is made.
pub fn ping_subnet<P: Fn(&str) -> PingExchange>(verbose: bool, subnet: &str, probe: P) -> (scan:
    Result<Vec<Result<ProbeOutcome, PingError>>, FatalError>)
    requires
        forall|asked: &str| call_requires(probe, (asked,)),
    ensures
        match scan {
            Ok(results) => subnet_targets(subnet@) is Ok && scanned::<Icmp, P>(
                verbose,
                probe,
                subnet_targets(subnet@).unwrap(),
                results@,
            ),
            Err(e) => subnet_targets(subnet@) == Err::<Seq<Seq<char>>, FatalError>(e),
        },
{
    match process_subnet(subnet) {
        Ok(targets) => Ok(run_scan::<Icmp, P>(verbose, targets, probe)),
        Err(e) => Err(e),
    }
}

/// Pings every target that the text of an address list names, in line
/// order.
pub fn ping_file<P: Fn(&str) -> PingExchange>(verbose: bool, contents: &str, probe: P) -> (results:
    Vec<Result<ProbeOutcome, PingError>>)
    requires
        forall|asked: &str| call_requires(probe, (asked,)),
    ensures
        scanned::<Icmp, P>(verbose, probe, file_targets(contents@), results@),
{
    run_scan::<Icmp, P>(verbose, read_file(contents), probe)
}

} // verus!
