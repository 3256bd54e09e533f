//! The address enumerator: from an IPv4 address and a mask length between
//! 24 and 30 to the subnet's usable host range and its host addresses.
//!
//! Only the fourth octet varies. The first three octets are carried
//! through as text, and the fourth is read as a signed 32-bit number
//! that is not held to 0..=255.

use vstd::prelude::*;
use vstd::string::*;
use crate::text::{
    decimal, decimal_nat, decimal_string, digit_char, join, join_with, parse_i32, parsed_i32,
    split, split_on, texts,
};

verus! {

/// Why a target specification cannot be enumerated at all.
#[derive(Clone, Copy, Debug, PartialEq, Eq, Structural)]
pub enum FatalError {
    /// The subnet specification has no `/` and so no mask length.
    MissingMask,
    /// The address has fewer than four dot-separated octets.
    MalformedAddress,
    /// The fourth octet is not a decimal number that fits 32 bits.
    InvalidOctet,
    /// The mask length is not one of 24..=30.
    InvalidMaskBits,
}

/// The usable host range of a subnet, by fourth octet.
#[derive(Clone, Copy, Debug, PartialEq, Eq, Structural)]
pub struct SubnetRange {
    /// Fourth octet of the network address.
    pub subnet_id: i64,
    /// Fourth octet of the broadcast address.
    pub broadcast: i64,
    /// Fourth octet of the first host address.
    pub first_usable: i64,
    /// Fourth octet of the last host address.
    pub last_usable: i64,
    /// Number of host addresses.
    pub host_count: i64,
}

/// Two to the power `n`.
pub open spec fn two_to(n: nat) -> nat
    decreases n,
{
    if n == 0 {
        1
    } else {
        2 * two_to((n - 1) as nat)
    }
}

/// Whether `mask_bits` is a mask length this enumerator supports.
pub open spec fn valid_mask(mask_bits: int) -> bool {
    24 <= mask_bits <= 30
}

/// Number of host addresses in a subnet of the given mask length: all
/// `2^(32 - mask_bits)` addresses but the network and broadcast ones.
pub open spec fn hosts_in(mask_bits: int) -> int
    recommends
        valid_mask(mask_bits),
{
    two_to((32 - mask_bits) as nat) - 2
}

/// The fixed table of host counts by mask length.
pub open spec fn host_table(mask_bits: int) -> Option<i64> {
    if mask_bits == 24 {
        Some(254i64)
    } else if mask_bits == 25 {
        Some(126i64)
    } else if mask_bits == 26 {
        Some(62i64)
    } else if mask_bits == 27 {
        Some(30i64)
    } else if mask_bits == 28 {
        Some(14i64)
    } else if mask_bits == 29 {
        Some(6i64)
    } else if mask_bits == 30 {
        Some(2i64)
    } else {
        None
    }
}

/// The range of the subnet that holds `last_octet`: the blocks of
/// `hosts + 2` addresses start at 0, and a negative octet falls into the
/// first one.
pub open spec fn range_around(last_octet: int, hosts: int) -> SubnetRange {
    let block = hosts + 2;
    let start = if last_octet <= 0 {
        0
    } else {
        (last_octet / block) * block
    };
    SubnetRange {
        subnet_id: start as i64,
        broadcast: (start + hosts + 1) as i64,
        first_usable: (start + 1) as i64,
        last_usable: (start + hosts) as i64,
        host_count: hosts as i64,
    }
}

/// The table holds, for each supported mask length and for no other, the
/// number of addresses of the subnet less two.
pub proof fn lemma_host_count_table(mask_bits: int)
    ensures
        valid_mask(mask_bits) ==> host_table(mask_bits) == Some(hosts_in(mask_bits) as i64),
        valid_mask(mask_bits) ==> 2 <= hosts_in(mask_bits) <= 254,
        !valid_mask(mask_bits) ==> host_table(mask_bits) is None,
{
    reveal_with_fuel(two_to, 9);
}

/// Number of host addresses for a mask length, or nothing when the
/// length is outside 24..=30.
pub fn host_count(mask_bits: u8) -> (hosts: Option<i64>)
    ensures
        hosts == host_table(mask_bits as int),
        hosts is Some <==> valid_mask(mask_bits as int),
        hosts is Some ==> hosts.unwrap() == hosts_in(mask_bits as int),
        hosts is Some ==> 2 <= hosts.unwrap() <= 254,
{
    proof {
        lemma_host_count_table(mask_bits as int);
    }
    if mask_bits == 24 {
        Some(254)
    } else if mask_bits == 25 {
        Some(126)
    } else if mask_bits == 26 {
        Some(62)
    } else if mask_bits == 27 {
        Some(30)
    } else if mask_bits == 28 {
        Some(14)
    } else if mask_bits == 29 {
        Some(6)
    } else if mask_bits == 30 {
        Some(2)
    } else {
        None
    }
}

/// Walks the blocks of `hosts + 2` addresses upwards from 0 until the one
/// that holds `last_octet` is reached.
fn locate_block(last_octet: i32, hosts: i64) -> (range: SubnetRange)
    requires
        2 <= hosts <= 254,
    ensures
        range == range_around(last_octet as int, hosts as int),
{
    let block: i64 = hosts + 2;
    let octet: i64 = last_octet as i64;
    let mut counter: i64 = hosts + 1;
    let ghost mut k: int = 0;
    while octet > counter
        invariant
            2 <= hosts <= 254,
            block == hosts + 2,
            octet == last_octet,
            0 <= k,
            counter == k * block + hosts + 1,
            k == 0 || k * block <= octet,
        decreases octet - counter + block,
    {
        proof {
            assert((k + 1) * block == k * block + block) by (nonlinear_arith);
            k = k + 1;
        }
        counter = counter + hosts + 2;
    }
    let start: i64 = counter - hosts - 1;
    proof {
        if octet > 0 {
            let b = block as int;
            let o = octet as int;
            assert(o / b == k) by (nonlinear_arith)
                requires
                    b > 0,
                    k * b <= o,
                    o < k * b + b,
            ;
        }
    }
    SubnetRange {
        subnet_id: start,
        broadcast: start + hosts + 1,
        first_usable: start + 1,
        last_usable: start + hosts,
        host_count: hosts,
    }
}

/// The number that the fourth dot-separated octet of `address` writes.
pub open spec fn fourth_octet(address: Seq<char>) -> Result<i32, FatalError> {
    let octets = split_on(address, '.');
    if octets.len() < 4 {
        Err(FatalError::MalformedAddress)
    } else {
        match parsed_i32(octets[3]) {
            Some(octet) => Ok(octet),
            None => Err(FatalError::InvalidOctet),
        }
    }
}

/// The range of the subnet `address/mask_bits`. A bad address is reported
/// before a bad mask length.
pub open spec fn enumerated(address: Seq<char>, mask_bits: int) -> Result<
    SubnetRange,
    FatalError,
> {
    match fourth_octet(address) {
        Err(e) => Err(e),
        Ok(octet) => if valid_mask(mask_bits) {
            Ok(range_around(octet as int, hosts_in(mask_bits)))
        } else {
            Err(FatalError::InvalidMaskBits)
        },
    }
}

/// The mask length that `text` writes: exactly the decimal notation of a
/// number in 24..=30, with no sign, space or leading zero.
pub open spec fn mask_of(text: Seq<char>) -> Option<u8> {
    if text.len() == 2 && text[0] == '2' && '4' <= text[1] && text[1] <= '9' {
        Some((20 + (text[1] as int - '0' as int)) as u8)
    } else if text.len() == 2 && text[0] == '3' && text[1] == '0' {
        Some(30u8)
    } else {
        None
    }
}

/// `mask_of` accepts the decimal notation of each valid mask length, and
/// whatever it accepts is that notation.
pub proof fn lemma_mask_of(text: Seq<char>)
    ensures
        match mask_of(text) {
            Some(m) => valid_mask(m as int) && text == decimal(m as int),
            None => forall|m: int| valid_mask(m) ==> text != decimal(m),
        },
{
    reveal_with_fuel(decimal_nat, 3);
    match mask_of(text) {
        Some(m) => {
            assert(text =~= decimal(m as int));
        },
        None => {
            assert forall|m: int| valid_mask(m) implies text != decimal(m) by {
                let d = decimal(m);
                assert(d.len() == 2);
                assert(d[0] == (if m == 30 { '3' } else { '2' }));
                assert(d[1] == digit_char(m % 10));
            }
        },
    }
}

/// The host addresses of `range` in ascending order: the octets of the
/// given address with the fourth one replaced by each usable number.
pub open spec fn host_addresses(octets: Seq<Seq<char>>, range: SubnetRange) -> Seq<Seq<char>> {
    Seq::new(
        range.host_count as nat,
        |k: int| join_with(octets.update(3, decimal(range.first_usable + k)), seq!['.']),
    )
}

/// The range of the subnet that a specification `address/mask` names.
/// Text after a second `/` is ignored. Errors come in this order: no
/// mask, too few octets, unreadable fourth octet, unsupported mask length.
pub open spec fn subnet_range(subnet: Seq<char>) -> Result<SubnetRange, FatalError> {
    let parts = split_on(subnet, '/');
    if parts.len() < 2 {
        Err(FatalError::MissingMask)
    } else {
        match fourth_octet(parts[0]) {
            Err(e) => Err(e),
            Ok(octet) => match mask_of(parts[1]) {
                None => Err(FatalError::InvalidMaskBits),
                Some(mask_bits) => Ok(range_around(octet as int, hosts_in(mask_bits as int))),
            },
        }
    }
}

/// The address of a subnet specification with its fourth octet replaced
/// by `octet`.
pub open spec fn address_with(subnet: Seq<char>, octet: int) -> Seq<char> {
    join_with(split_on(split_on(subnet, '/')[0], '.').update(3, decimal(octet)), seq!['.'])
}

/// What a subnet specification `address/mask` enumerates to: the host
/// addresses of its range, in ascending order of the fourth octet.
pub open spec fn subnet_targets(subnet: Seq<char>) -> Result<Seq<Seq<char>>, FatalError> {
    match subnet_range(subnet) {
        Err(e) => Err(e),
        Ok(range) => Ok(host_addresses(split_on(split_on(subnet, '/')[0], '.'), range)),
    }
}

/// What there is to tell about a subnet before it is scanned: the address
/// and mask as given, the subnet and broadcast addresses, the number of
/// hosts, and the subnet about to be scanned.
pub open spec fn subnet_narration(subnet: Seq<char>) -> Result<Seq<Seq<char>>, FatalError> {
    match subnet_range(subnet) {
        Err(e) => Err(e),
        Ok(range) => Ok(
            seq![
                "Address provided: "@ + split_on(subnet, '/')[0],
                "Mask bits provided: "@ + split_on(subnet, '/')[1],
                "Subnet ID is: "@ + address_with(subnet, range.subnet_id as int),
                "Broadcast Address: "@ + address_with(subnet, range.broadcast as int),
                "Total number of hosts in subnet: "@ + decimal(range.host_count as int),
                "Beginning to ping subnet "@ + subnet + "..."@,
            ],
        ),
    }
}

fn read_address(address: &str) -> (read: Result<(Vec<String>, i32), FatalError>)
    ensures
        match read {
            Ok((octets, octet)) => {
                &&& texts(octets@) == split_on(address@, '.')
                &&& octets.len() >= 4
                &&& fourth_octet(address@) == Ok::<i32, FatalError>(octet)
            },
            Err(e) => fourth_octet(address@) == Err::<i32, FatalError>(e),
        },
{
    let octets = split(address, '.');
    if octets.len() < 4 {
        return Err(FatalError::MalformedAddress);
    }
    assert(texts(octets@)[3] == octets@[3]@);
    match parse_i32(octets[3].as_str()) {
        Some(octet) => Ok((octets, octet)),
        None => Err(FatalError::InvalidOctet),
    }
}

/// Computes the usable host range of the subnet `address/mask_bits`.
pub fn enumerate(address: &str, mask_bits: u8) -> (range: Result<SubnetRange, FatalError>)
    ensures
        range == enumerated(address@, mask_bits as int),
{
    let octet = match read_address(address) {
        Ok((_, octet)) => octet,
        Err(e) => {
            return Err(e);
        },
    };
    match host_count(mask_bits) {
        Some(hosts) => Ok(locate_block(octet, hosts)),
        None => Err(FatalError::InvalidMaskBits),
    }
}

/// Reads a mask length from its text.
pub fn mask_bits_of(text: &str) -> (mask_bits: Option<u8>)
    ensures
        mask_bits == mask_of(text@),
{
    if text.unicode_len() != 2 {
        return None;
    }
    let tens = text.get_char(0);
    let units = text.get_char(1);
    if tens == '2' && '4' <= units && units <= '9' {
        Some(20 + ((units as u8) - ('0' as u8)))
    } else if tens == '3' && units == '0' {
        Some(30)
    } else {
        None
    }
}

/// A subnet specification taken apart: its pieces between slashes, the
/// octets of its address, and its range.
struct SubnetParts {
    parts: Vec<String>,
    octets: Vec<String>,
    range: SubnetRange,
}

fn read_subnet(subnet: &str) -> (read: Result<SubnetParts, FatalError>)
    ensures
        match read {
            Ok(found) => {
                &&& texts(found.parts@) == split_on(subnet@, '/')
                &&& found.parts.len() >= 2
                &&& texts(found.octets@) == split_on(found.parts@[0]@, '.')
                &&& found.octets.len() >= 4
                &&& subnet_range(subnet@) == Ok::<SubnetRange, FatalError>(found.range)
                &&& 2 <= found.range.host_count <= 254
                &&& 0 <= found.range.subnet_id <= i32::MAX
                &&& found.range.first_usable == found.range.subnet_id + 1
                &&& found.range.broadcast == found.range.subnet_id + found.range.host_count + 1
            },
            Err(e) => subnet_range(subnet@) == Err::<SubnetRange, FatalError>(e),
        },
{
    let parts = split(subnet, '/');
    if parts.len() < 2 {
        return Err(FatalError::MissingMask);
    }
    assert(texts(parts@)[0] == parts@[0]@);
    assert(texts(parts@)[1] == parts@[1]@);
    let (octets, octet) = match read_address(parts[0].as_str()) {
        Ok(read) => read,
        Err(e) => {
            return Err(e);
        },
    };
    let mask_bits = match mask_bits_of(parts[1].as_str()) {
        Some(mask_bits) => mask_bits,
        None => {
            return Err(FatalError::InvalidMaskBits);
        },
    };
    proof {
        lemma_mask_of(parts@[1]@);
    }
    let hosts = match host_count(mask_bits) {
        Some(hosts) => hosts,
        None => {
            return Err(FatalError::InvalidMaskBits);
        },
    };
    let range = locate_block(octet, hosts);
    proof {
        if octet >= 0 {
            lemma_block_start(octet as int, hosts + 2);
        }
    }
    Ok(SubnetParts { parts, octets, range })
}

fn address_text(octets: &mut Vec<String>, octet: i64) -> (address: String)
    requires
        old(octets).len() >= 4,
    ensures
        final(octets).len() == old(octets).len(),
        forall|i: int|
            0 <= i < old(octets).len() && i != 3 ==> final(octets)@[i] == old(octets)@[i],
        address@ == join_with(texts(old(octets)@).update(3, decimal(octet as int)), seq!['.']),
{
    octets.set(3, decimal_string(octet));
    proof {
        reveal_strlit(".");
        assert("."@ =~= seq!['.']);
        assert(texts(octets@) =~= texts(old(octets)@).update(3, decimal(octet as int)));
    }
    join(octets, ".")
}

/// Whether `outcome` is what enumerating `subnet` gives: its targets, or
/// the error that stands in the way.
pub open spec fn is_enumeration(subnet: Seq<char>, outcome: Result<Vec<String>, FatalError>)
    -> bool {
    match outcome {
        Ok(list) => subnet_targets(subnet) == Ok::<Seq<Seq<char>>, FatalError>(texts(list@)),
        Err(e) => subnet_targets(subnet) == Err::<Seq<Seq<char>>, FatalError>(e),
    }
}

/// Expands the subnet specification `address/mask` into its host
/// addresses, in ascending order of the fourth octet.
pub fn process_subnet(subnet: &str) -> (targets: Result<Vec<String>, FatalError>)
    ensures
        is_enumeration(subnet@, targets),
{
    let SubnetParts { parts, mut octets, range } = match read_subnet(subnet) {
        Ok(found) => found,
        Err(e) => {
            return Err(e);
        },
    };
    let ghost given = texts(octets@);
    let ghost wanted = host_addresses(given, range);
    let mut targets: Vec<String> = Vec::new();
    let mut k: i64 = 0;
    while k < range.host_count
        invariant
            0 <= k <= range.host_count <= 254,
            0 <= range.first_usable <= i32::MAX as int + 1,
            octets.len() == given.len(),
            given.len() >= 4,
            texts(octets@).update(3, given[3]) == given,
            wanted == host_addresses(given, range),
            targets.len() == k,
            forall|i: int| 0 <= i < k ==> targets@[i]@ == wanted[i],
        decreases range.host_count - k,
    {
        let ghost before = texts(octets@);
        let address = address_text(&mut octets, range.first_usable + k);
        proof {
            let octet = decimal(range.first_usable + k);
            assert(before.update(3, octet) =~= given.update(3, octet));
            assert(texts(octets@).update(3, given[3]) =~= given);
        }
        targets.push(address);
        k += 1;
    }
    assert(texts(targets@) =~= wanted);
    Ok(targets)
}

/// Tells what there is to tell about a subnet before it is scanned.
pub fn narrate_subnet(subnet: &str) -> (lines: Result<Vec<String>, FatalError>)
    ensures
        match lines {
            Ok(list) => subnet_narration(subnet@) == Ok::<Seq<Seq<char>>, FatalError>(
                texts(list@),
            ),
            Err(e) => subnet_narration(subnet@) == Err::<Seq<Seq<char>>, FatalError>(e),
        },
{
    let SubnetParts { parts, mut octets, range } = match read_subnet(subnet) {
        Ok(found) => found,
        Err(e) => {
            return Err(e);
        },
    };
    assert(texts(parts@)[0] == parts@[0]@);
    assert(texts(parts@)[1] == parts@[1]@);
    let ghost given = texts(octets@);
    let mut address = String::from_str("Address provided: ");
    address.append(parts[0].as_str());
    let mut mask = String::from_str("Mask bits provided: ");
    mask.append(parts[1].as_str());
    let mut subnet_id = String::from_str("Subnet ID is: ");
    subnet_id.append(address_text(&mut octets, range.subnet_id).as_str());
    proof {
        let octet = decimal(range.broadcast as int);
        assert(texts(octets@).update(3, octet) =~= given.update(3, octet));
    }
    let mut broadcast = String::from_str("Broadcast Address: ");
    broadcast.append(address_text(&mut octets, range.broadcast).as_str());
    let mut hosts = String::from_str("Total number of hosts in subnet: ");
    hosts.append(decimal_string(range.host_count).as_str());
    let mut beginning = String::from_str("Beginning to ping subnet ");
    beginning.append(subnet);
    beginning.append("...");
    let mut lines: Vec<String> = Vec::new();
    lines.push(address);
    lines.push(mask);
    lines.push(subnet_id);
    lines.push(broadcast);
    lines.push(hosts);
    lines.push(beginning);
    assert(texts(lines@) =~= subnet_narration(subnet@).unwrap());
    Ok(lines)
}

/// In every enumerated range the first and last usable octets differ by
/// the host count less one, the broadcast octet follows the last usable
/// one, and the subnet octet precedes the first usable one.
pub proof fn lemma_range_shape(address: Seq<char>, mask_bits: int)
    requires
        enumerated(address, mask_bits) is Ok,
    ensures
        ({
            let range = enumerated(address, mask_bits).unwrap();
            &&& range.host_count == hosts_in(mask_bits)
            &&& range.last_usable - range.first_usable == range.host_count - 1
            &&& range.broadcast == range.last_usable + 1
            &&& range.subnet_id == range.first_usable - 1
        }),
{
    lemma_host_count_table(mask_bits);
    let octet = fourth_octet(address).unwrap() as int;
    if octet >= 0 {
        lemma_block_start(octet, hosts_in(mask_bits) + 2);
    }
}

/// The block that holds a positive octet starts at or below it.
pub proof fn lemma_block_start(octet: int, block: int)
    requires
        block > 0,
        octet >= 0,
    ensures
        0 <= (octet / block) * block <= octet,
        octet < (octet / block) * block + block,
{
    assert(0 <= (octet / block) * block <= octet && octet < (octet / block) * block + block)
        by (nonlinear_arith)
        requires
            block > 0,
            octet >= 0,
    ;
}

/// Enumeration has no hidden state: two enumerations of one subnet
/// specification give the same addresses in the same order, or the same
/// error.
pub proof fn lemma_enumeration_repeats(
    subnet: Seq<char>,
    first: Result<Vec<String>, FatalError>,
    second: Result<Vec<String>, FatalError>,
)
    requires
        is_enumeration(subnet, first),
        is_enumeration(subnet, second),
    ensures
        match first {
            Ok(list) => second is Ok && texts(second.unwrap()@) == texts(list@),
            Err(e) => second == Err::<Vec<String>, FatalError>(e),
        },
{
}

/// An enumeration holds as many addresses as the subnet has hosts, and
/// its `k`-th address is the given one with the `k`-th usable octet in
/// fourth place.
pub proof fn lemma_enumeration_ascends(subnet: Seq<char>, k: int)
    requires
        subnet_targets(subnet) is Ok,
        0 <= k < subnet_range(subnet).unwrap().host_count,
    ensures
        subnet_targets(subnet).unwrap().len() == subnet_range(subnet).unwrap().host_count,
        subnet_targets(subnet).unwrap()[k] == address_with(
            subnet,
            subnet_range(subnet).unwrap().first_usable + k,
        ),
        subnet_range(subnet).unwrap().first_usable + k <= subnet_range(
            subnet,
        ).unwrap().last_usable,
{
    let octet = fourth_octet(split_on(subnet, '/')[0]).unwrap() as int;
    let mask_bits = mask_of(split_on(subnet, '/')[1]).unwrap() as int;
    lemma_mask_of(split_on(subnet, '/')[1]);
    lemma_host_count_table(mask_bits);
    if octet >= 0 {
        lemma_block_start(octet, hosts_in(mask_bits) + 2);
    }
}

} // verus!
