//! Connection candidates: the addresses under which one bus endpoint is
//! tried, in the order in which they are tried.
//!
//! Name resolution itself is done by the caller. This module says what to
//! resolve, and makes the list of candidates out of the answer: the address
//! as it was given, then what it resolved to, IPv6 before IPv4, each address
//! once.

use vstd::prelude::*;
use vstd::string::*;
use crate::text::{
    chars_of, decimal_text, find_last, format_decimal, last_position, lemma_last_position,
    parse_unsigned, parse_unsigned_spec, text_between,
};

verus! {

/// The port that an address is resolved with where it names none.
pub const DEFAULT_SERVICE_PORT: u16 = 4222;

/// One address that resolution gave for a host name.
#[derive(Clone, Debug, PartialEq, Eq)]
pub struct ResolvedAddress {
    pub is_ipv6: bool,
    /// The address with its port, written as a socket address: `ip:port`,
    /// and `[ip]:port` for IPv6.
    pub socket_text: String,
    /// The address alone.
    pub ip_text: String,
}

/// A resolved address as a value of specifications.
pub struct ResolvedAddressView {
    pub is_ipv6: bool,
    pub socket_text: Seq<char>,
    pub ip_text: Seq<char>,
}

impl View for ResolvedAddress {
    type V = ResolvedAddressView;

    open spec fn view(&self) -> ResolvedAddressView {
        ResolvedAddressView {
            is_ipv6: self.is_ipv6,
            socket_text: self.socket_text@,
            ip_text: self.ip_text@,
        }
    }
}

/// A candidate as a value of specifications: its label and its address.
pub type Candidate = (Seq<char>, Seq<char>);

/// A candidate as a value of specifications.
pub open spec fn candidate_view(candidate: (String, String)) -> Candidate {
    (candidate.0@, candidate.1@)
}

/// Candidates as values of specifications.
pub open spec fn candidate_views(candidates: Seq<(String, String)>) -> Seq<Candidate> {
    candidates.map_values(|c: (String, String)| candidate_view(c))
}

/// Resolved addresses as values of specifications.
pub open spec fn address_views(resolved: Seq<ResolvedAddress>) -> Seq<ResolvedAddressView> {
    resolved.map_values(|a: ResolvedAddress| a@)
}

// ---------------------------------------------------------------------------
// Host and port
// ---------------------------------------------------------------------------

/// Where the port of `host` begins: the position of its last colon, where
/// what follows the colon is a port number. `None` where `host` names no
/// port.
pub open spec fn port_colon(host: Seq<char>) -> Option<int> {
    match last_position(host, ':') {
        Some(at) => if parse_unsigned_spec(host.subrange(at + 1, host.len() as int), 0xffff)
            is Some {
            Some(at)
        } else {
            None
        },
        None => None,
    }
}

/// The part of `host` before its port; all of it where it names no port.
pub open spec fn host_name(host: Seq<char>) -> Seq<char> {
    match port_colon(host) {
        Some(at) => host.subrange(0, at),
        None => host,
    }
}

/// The port of `host` with the colon before it.
pub open spec fn port_suffix(host: Seq<char>) -> Option<Seq<char>> {
    match port_colon(host) {
        Some(at) => Some(host.subrange(at, host.len() as int)),
        None => None,
    }
}

/// What is handed to name resolution for `host`: the address itself where
/// it names a port, else the address with the default port.
pub open spec fn resolution_target_text(host: Seq<char>) -> Seq<char> {
    if port_colon(host) is Some {
        host
    } else {
        host + ":"@ + decimal_text(DEFAULT_SERVICE_PORT as nat)
    }
}

/// Finds the colon before the port of an address.
fn find_port_colon(chars: &Vec<char>) -> (colon: Option<usize>)
    ensures
        match port_colon(chars@) {
            Some(at) => colon == Some(at as usize),
            None => colon is None,
        },
{
    proof {
        lemma_last_position(chars@, ':');
    }
    match find_last(chars, ':') {
        Some(at) => {
            if parse_unsigned(chars, at + 1, 0xffff).is_some() {
                Some(at)
            } else {
                None
            }
        },
        None => None,
    }
}

/// Whether an address names a port.
pub fn has_port(host: &str) -> (named: bool)
    ensures
        named == (port_colon(host@) is Some),
{
    let chars = chars_of(host);
    find_port_colon(&chars).is_some()
}

/// Parts an address into the host and, where it names one, the port with
/// the colon before it.
pub fn split_port(host: &str) -> (parts: (String, Option<String>))
    ensures
        parts.0@ == host_name(host@),
        match port_suffix(host@) {
            Some(port) => parts.1 matches Some(p) && p@ == port,
            None => parts.1 is None,
        },
{
    let chars = chars_of(host);
    proof {
        lemma_last_position(chars@, ':');
    }
    match find_port_colon(&chars) {
        Some(at) => {
            let name = text_between(&chars, 0, at);
            let port = text_between(&chars, at, chars.len());
            (name, Some(port))
        },
        None => {
            let name = text_between(&chars, 0, chars.len());
            assert(chars@.subrange(0, chars.len() as int) == chars@);
            (name, None)
        },
    }
}

/// What to hand to name resolution for `host`.
pub fn resolution_target(host: &str) -> (target: String)
    ensures
        target@ == resolution_target_text(host@),
{
    let mut target = String::from_str(host);
    if !has_port(host) {
        let port = format_decimal(DEFAULT_SERVICE_PORT as u64);
        target.append(":");
        target.append(port.as_str());
    }
    target
}

// ---------------------------------------------------------------------------
// Candidates
// ---------------------------------------------------------------------------

/// The label of the address as it was given.
pub open spec fn original_label() -> Seq<char> {
    "original"@
}

/// The label of a resolved address.
pub open spec fn family_label(ipv6: bool) -> Seq<char> {
    if ipv6 {
        "IPv6"@
    } else {
        "IPv4"@
    }
}

/// How a resolved address is written as a candidate: with its port where
/// the given address named one, else alone, IPv6 in brackets.
pub open spec fn candidate_text(address: ResolvedAddressView, with_port: bool) -> Seq<char> {
    if with_port {
        address.socket_text
    } else if address.is_ipv6 {
        "["@ + address.ip_text + "]"@
    } else {
        address.ip_text
    }
}

/// The candidates of one address family, in the order of resolution.
pub open spec fn family_candidates(
    resolved: Seq<ResolvedAddressView>,
    ipv6: bool,
    with_port: bool,
) -> Seq<Candidate>
    decreases resolved.len(),
{
    if resolved.len() == 0 {
        Seq::empty()
    } else {
        let earlier = family_candidates(resolved.drop_last(), ipv6, with_port);
        let address = resolved.last();
        if address.is_ipv6 == ipv6 {
            earlier.push((family_label(ipv6), candidate_text(address, with_port)))
        } else {
            earlier
        }
    }
}

/// Every candidate of `host`, duplicates included: the address as given,
/// then the resolved IPv6 addresses, then the resolved IPv4 addresses.
pub open spec fn all_candidates(host: Seq<char>, resolved: Seq<ResolvedAddressView>) -> Seq<
    Candidate,
> {
    let with_port = port_colon(host) is Some;
    seq![(original_label(), host)] + family_candidates(resolved, true, with_port)
        + family_candidates(resolved, false, with_port)
}

/// An address occurs among the candidates.
pub open spec fn has_address(candidates: Seq<Candidate>, address: Seq<char>) -> bool {
    exists|i: int| 0 <= i < candidates.len() && (#[trigger] candidates[i]).1 == address
}

/// The candidates without those whose address has occurred before.
pub open spec fn first_seen(candidates: Seq<Candidate>) -> Seq<Candidate>
    decreases candidates.len(),
{
    if candidates.len() == 0 {
        Seq::empty()
    } else {
        let earlier = candidates.drop_last();
        if has_address(earlier, candidates.last().1) {
            first_seen(earlier)
        } else {
            first_seen(earlier).push(candidates.last())
        }
    }
}

/// The candidates under which `host` is tried, given what it resolved to.
pub open spec fn connection_hosts(host: Seq<char>, resolved: Seq<ResolvedAddressView>) -> Seq<
    Candidate,
> {
    first_seen(all_candidates(host, resolved))
}

/// No two candidates have one address.
pub open spec fn distinct_addresses(candidates: Seq<Candidate>) -> bool {
    forall|i: int, j: int|
        0 <= i < j < candidates.len() ==> (#[trigger] candidates[i]).1 != (
        #[trigger] candidates[j]).1
}

/// The position at which an address occurs first.
pub open spec fn first_occurrence(candidates: Seq<Candidate>, address: Seq<char>) -> int
    decreases candidates.len(),
{
    if candidates.len() == 0 {
        0
    } else if has_address(candidates.drop_last(), address) {
        first_occurrence(candidates.drop_last(), address)
    } else {
        candidates.len() - 1
    }
}

/// Where an address occurs, its first occurrence is a position that holds
/// it, and no earlier position does.
pub proof fn lemma_first_occurrence(candidates: Seq<Candidate>, address: Seq<char>)
    requires
        has_address(candidates, address),
    ensures
        0 <= first_occurrence(candidates, address) < candidates.len(),
        candidates[first_occurrence(candidates, address)].1 == address,
        forall|k: int|
            0 <= k < first_occurrence(candidates, address) ==> (#[trigger] candidates[k]).1
                != address,
    decreases candidates.len(),
{
    let earlier = candidates.drop_last();
    let at = choose|i: int| 0 <= i < candidates.len() && (#[trigger] candidates[i]).1 == address;
    if has_address(earlier, address) {
        lemma_first_occurrence(earlier, address);
        assert forall|k: int| 0 <= k < earlier.len() implies earlier[k] == candidates[k] by {}
    } else {
        assert forall|k: int| 0 <= k < candidates.len() - 1 implies (#[trigger] candidates[k]).1
            != address by {
            assert(earlier[k] == candidates[k]);
        }
        assert(at == candidates.len() - 1);
    }
}

/// What `first_seen` keeps: each address once, at its first occurrence, and
/// in the order of the first occurrences.
pub proof fn lemma_first_seen(candidates: Seq<Candidate>)
    ensures
        distinct_addresses(first_seen(candidates)),
        first_seen(candidates).len() <= candidates.len(),
        forall|address: Seq<char>|
            has_address(first_seen(candidates), address) <==> has_address(candidates, address),
        forall|i: int|
            0 <= i < first_seen(candidates).len() ==> (#[trigger] first_seen(candidates)[i])
                == candidates[first_occurrence(candidates, first_seen(candidates)[i].1)],
        forall|i: int, j: int|
            0 <= i < j < first_seen(candidates).len() ==> first_occurrence(
                candidates,
                (#[trigger] first_seen(candidates)[i]).1,
            ) < first_occurrence(candidates, (#[trigger] first_seen(candidates)[j]).1),
    decreases candidates.len(),
{
    let kept = first_seen(candidates);
    if candidates.len() > 0 {
        let earlier = candidates.drop_last();
        let last = candidates.last();
        let before = first_seen(earlier);
        lemma_first_seen(earlier);
        assert forall|k: int| 0 <= k < earlier.len() implies earlier[k] == candidates[k] by {}
        assert forall|address: Seq<char>|
            has_address(kept, address) <==> has_address(candidates, address) by {
            if has_address(kept, address) {
                let i = choose|i: int| 0 <= i < kept.len() && (#[trigger] kept[i]).1 == address;
                if i < before.len() {
                    assert(before[i].1 == address);
                    assert(has_address(earlier, address));
                    let k = choose|k: int|
                        0 <= k < earlier.len() && (#[trigger] earlier[k]).1 == address;
                    assert(candidates[k].1 == address);
                } else {
                    assert(candidates[candidates.len() - 1].1 == address);
                }
            }
            if has_address(candidates, address) {
                let k = choose|k: int|
                    0 <= k < candidates.len() && (#[trigger] candidates[k]).1 == address;
                if k < earlier.len() {
                    assert(earlier[k].1 == address);
                }
                if has_address(earlier, address) {
                    let i = choose|i: int|
                        0 <= i < before.len() && (#[trigger] before[i]).1 == address;
                    assert(kept[i].1 == address);
                } else {
                    assert(kept[kept.len() - 1].1 == address);
                }
            }
        }
        assert forall|i: int| 0 <= i < kept.len() implies (#[trigger] kept[i])
            == candidates[first_occurrence(candidates, kept[i].1)] by {
            if i < before.len() {
                assert(kept[i] == before[i]);
                assert(has_address(before, before[i].1));
                lemma_first_occurrence(earlier, before[i].1);
            }
        }
        assert forall|i: int, j: int| 0 <= i < j < kept.len() implies first_occurrence(
            candidates,
            (#[trigger] kept[i]).1,
        ) < first_occurrence(candidates, (#[trigger] kept[j]).1) by {
            assert(kept[i] == before[i]);
            assert(has_address(before, before[i].1));
            lemma_first_occurrence(earlier, before[i].1);
            if j < before.len() {
                assert(kept[j] == before[j]);
                assert(has_address(before, before[j].1));
            }
        }
        assert forall|i: int, j: int| 0 <= i < j < kept.len() implies (#[trigger] kept[i]).1 != (
        #[trigger] kept[j]).1 by {
            assert(kept[i] == before[i]);
            if j >= before.len() {
                assert(has_address(before, before[i].1));
            } else {
                assert(kept[j] == before[j]);
            }
        }
    }
}

/// Writes a resolved address as a candidate.
fn write_candidate(address: &ResolvedAddress, with_port: bool) -> (text: String)
    ensures
        text@ == candidate_text(address@, with_port),
{
    if with_port {
        address.socket_text.clone()
    } else if address.is_ipv6 {
        let mut text = String::from_str("[");
        text.append(address.ip_text.as_str());
        text.append("]");
        text
    } else {
        address.ip_text.clone()
    }
}

/// Adds the candidates of one address family to `hosts`.
fn push_family(
    hosts: &mut Vec<(String, String)>,
    resolved: &Vec<ResolvedAddress>,
    ipv6: bool,
    with_port: bool,
)
    ensures
        candidate_views(final(hosts)@) == candidate_views(old(hosts)@) + family_candidates(
            address_views(resolved@),
            ipv6,
            with_port,
        ),
{
    let ghost start = candidate_views(hosts@);
    let ghost addresses = address_views(resolved@);
    let mut i: usize = 0;
    assert(addresses.take(0) =~= Seq::<ResolvedAddressView>::empty());
    assert(start + Seq::<Candidate>::empty() =~= start);
    while i < resolved.len()
        invariant
            i <= resolved.len(),
            addresses == address_views(resolved@),
            candidate_views(hosts@) == start + family_candidates(
                addresses.take(i as int),
                ipv6,
                with_port,
            ),
        decreases resolved.len() - i,
    {
        assert(addresses.take(i + 1).drop_last() == addresses.take(i as int));
        assert(addresses.take(i + 1).last() == resolved[i as int]@);
        if resolved[i].is_ipv6 == ipv6 {
            let label = if ipv6 {
                String::from_str("IPv6")
            } else {
                String::from_str("IPv4")
            };
            let text = write_candidate(&resolved[i], with_port);
            let ghost before = candidate_views(hosts@);
            let ghost added = (label@, text@);
            hosts.push((label, text));
            assert(candidate_views(hosts@) =~= before.push(added));
            assert((start + family_candidates(addresses.take(i as int), ipv6, with_port)).push(
                added,
            ) =~= start + family_candidates(addresses.take(i as int), ipv6, with_port).push(
                added,
            ));
        }
        i = i + 1;
    }
    assert(addresses.take(i as int) == addresses);
}

/// Whether an address occurs among the first `n` of `hosts`.
fn seen_before(hosts: &Vec<(String, String)>, n: usize, address: &String) -> (seen: bool)
    requires
        n <= hosts.len(),
    ensures
        seen == has_address(candidate_views(hosts@).take(n as int), address@),
{
    let ghost earlier = candidate_views(hosts@).take(n as int);
    let mut k: usize = 0;
    while k < n
        invariant
            k <= n <= hosts.len(),
            earlier == candidate_views(hosts@).take(n as int),
            forall|m: int| 0 <= m < k ==> (#[trigger] earlier[m]).1 != address@,
        decreases n - k,
    {
        if hosts[k].1 == *address {
            assert(earlier[k as int].1 == address@);
            return true;
        }
        k = k + 1;
    }
    false
}

/// The candidates under which `host` is tried, given the addresses that it
/// resolved to: none where resolution failed.
///
/// The first candidate is always the address as it was given. The resolved
/// addresses follow, IPv6 before IPv4, and no address comes twice.
pub fn generate_connection_hosts(host: &str, resolved: &Vec<ResolvedAddress>) -> (hosts: Vec<
    (String, String),
>)
    ensures
        candidate_views(hosts@) == connection_hosts(host@, address_views(resolved@)),
        hosts.len() >= 1,
        candidate_views(hosts@)[0] == (original_label(), host@),
        distinct_addresses(candidate_views(hosts@)),
{
    let with_port = has_port(host);
    let mut all: Vec<(String, String)> = Vec::new();
    all.push((String::from_str("original"), String::from_str(host)));
    assert(candidate_views(all@) =~= seq![(original_label(), host@)]);
    push_family(&mut all, resolved, true, with_port);
    push_family(&mut all, resolved, false, with_port);
    let ghost everything = candidate_views(all@);
    assert(everything == all_candidates(host@, address_views(resolved@)));

    let mut hosts: Vec<(String, String)> = Vec::new();
    let mut i: usize = 0;
    assert(everything.take(0) =~= Seq::<Candidate>::empty());
    assert(candidate_views(hosts@) =~= Seq::<Candidate>::empty());
    while i < all.len()
        invariant
            i <= all.len(),
            all.len() >= 1,
            everything == candidate_views(all@),
            everything[0] == (original_label(), host@),
            candidate_views(hosts@) == first_seen(everything.take(i as int)),
            i >= 1 ==> hosts.len() >= 1 && candidate_views(hosts@)[0] == everything[0],
        decreases all.len() - i,
    {
        assert(everything.take(i + 1).drop_last() == everything.take(i as int));
        assert(everything.take(i + 1).last() == everything[i as int]);
        if !seen_before(&all, i, &all[i].1) {
            let ghost before = candidate_views(hosts@);
            let entry = (all[i].0.clone(), all[i].1.clone());
            hosts.push(entry);
            assert(candidate_views(hosts@) =~= before.push(everything[i as int]));
        }
        i = i + 1;
    }
    proof {
        assert(everything.take(i as int) == everything);
        lemma_first_seen(everything);
    }
    hosts
}

/// The first candidate stays first.
pub proof fn lemma_first_seen_head(candidates: Seq<Candidate>)
    requires
        candidates.len() >= 1,
    ensures
        first_seen(candidates).len() >= 1,
        first_seen(candidates)[0] == candidates[0],
    decreases candidates.len(),
{
    let earlier = candidates.drop_last();
    if candidates.len() == 1 {
        assert(earlier =~= Seq::<Candidate>::empty());
        assert(!has_address(earlier, candidates.last().1));
        assert(first_seen(earlier) =~= Seq::<Candidate>::empty());
        assert(first_seen(candidates) == first_seen(earlier).push(candidates.last()));
    } else {
        lemma_first_seen_head(earlier);
        assert(earlier[0] == candidates[0]);
        let kept = first_seen(earlier);
        assert(kept.push(candidates.last())[0] == kept[0]);
    }
}

/// The address as it was given is the first candidate, whatever resolution
/// gave, and the only one where resolution gave nothing.
pub proof fn lemma_original_comes_first(host: Seq<char>, resolved: Seq<ResolvedAddressView>)
    ensures
        connection_hosts(host, resolved).len() >= 1,
        connection_hosts(host, resolved)[0] == (original_label(), host),
        resolved.len() == 0 ==> connection_hosts(host, resolved) == seq![(original_label(), host)],
{
    let all = all_candidates(host, resolved);
    lemma_first_seen_head(all);
    if resolved.len() == 0 {
        assert(all =~= seq![(original_label(), host)]);
        assert(all.drop_last() =~= Seq::<Candidate>::empty());
        assert(!has_address(all.drop_last(), all.last().1));
        assert(first_seen(all.drop_last()) =~= Seq::<Candidate>::empty());
        assert(first_seen(all) =~= seq![(original_label(), host)]);
    }
}

/// Where a label stands in the order of the candidates: the address as
/// given, then IPv6, then IPv4.
pub open spec fn label_rank(label: Seq<char>) -> int {
    if label == original_label() {
        0
    } else if label == family_label(true) {
        1
    } else {
        2
    }
}

/// The candidates of a family carry the label of the family.
proof fn lemma_family_labels(resolved: Seq<ResolvedAddressView>, ipv6: bool, with_port: bool)
    ensures
        forall|i: int|
            0 <= i < family_candidates(resolved, ipv6, with_port).len() ==> (
            #[trigger] family_candidates(resolved, ipv6, with_port)[i]).0 == family_label(ipv6),
    decreases resolved.len(),
{
    if resolved.len() > 0 {
        lemma_family_labels(resolved.drop_last(), ipv6, with_port);
        let family = family_candidates(resolved, ipv6, with_port);
        let before = family_candidates(resolved.drop_last(), ipv6, with_port);
        assert forall|i: int| 0 <= i < family.len() implies (#[trigger] family[i]).0
            == family_label(ipv6) by {
            if i < before.len() {
                assert(family[i] == before[i]);
            }
        }
    }
}

/// The candidates come in the order of their kinds: the address as given,
/// then the IPv6 addresses, then the IPv4 addresses.
pub proof fn lemma_families_in_order(host: Seq<char>, resolved: Seq<ResolvedAddressView>)
    ensures
        forall|i: int, j: int|
            0 <= i < j < connection_hosts(host, resolved).len() ==> label_rank(
                (#[trigger] connection_hosts(host, resolved)[i]).0,
            ) <= label_rank((#[trigger] connection_hosts(host, resolved)[j]).0),
{
    let with_port = port_colon(host) is Some;
    let all = all_candidates(host, resolved);
    let v6 = family_candidates(resolved, true, with_port);
    let v4 = family_candidates(resolved, false, with_port);
    let kept = connection_hosts(host, resolved);
    reveal_strlit("original");
    reveal_strlit("IPv6");
    reveal_strlit("IPv4");
    assert(original_label().len() != family_label(true).len());
    assert(original_label().len() != family_label(false).len());
    assert(family_label(true)[3] != family_label(false)[3]);
    lemma_family_labels(resolved, true, with_port);
    lemma_family_labels(resolved, false, with_port);
    assert forall|p: int, q: int| 0 <= p < q < all.len() implies label_rank(all[p].0)
        <= label_rank(all[q].0) by {
        if p >= 1 {
            if p - 1 < v6.len() {
                assert(all[p] == v6[p - 1]);
            } else {
                assert(all[p] == v4[p - 1 - v6.len()]);
            }
        }
        if q - 1 < v6.len() {
            assert(all[q] == v6[q - 1]);
        } else {
            assert(all[q] == v4[q - 1 - v6.len()]);
        }
    }
    lemma_first_seen(all);
    assert forall|i: int, j: int| 0 <= i < j < kept.len() implies label_rank(
        (#[trigger] kept[i]).0,
    ) <= label_rank((#[trigger] kept[j]).0) by {
        assert(has_address(kept, kept[i].1));
        assert(has_address(kept, kept[j].1));
        lemma_first_occurrence(all, kept[i].1);
        lemma_first_occurrence(all, kept[j].1);
    }
}

/// Every address of a family is among the candidates of the family.
proof fn lemma_family_holds(
    resolved: Seq<ResolvedAddressView>,
    ipv6: bool,
    with_port: bool,
    at: int,
)
    requires
        0 <= at < resolved.len(),
        resolved[at].is_ipv6 == ipv6,
    ensures
        has_address(
            family_candidates(resolved, ipv6, with_port),
            candidate_text(resolved[at], with_port),
        ),
    decreases resolved.len(),
{
    let family = family_candidates(resolved, ipv6, with_port);
    let earlier = resolved.drop_last();
    let before = family_candidates(earlier, ipv6, with_port);
    let text = candidate_text(resolved[at], with_port);
    if at == resolved.len() - 1 {
        assert(family[family.len() - 1].1 == text);
    } else {
        assert(earlier[at] == resolved[at]);
        lemma_family_holds(earlier, ipv6, with_port, at);
        let k = choose|k: int| 0 <= k < before.len() && (#[trigger] before[k]).1 == text;
        assert(family[k] == before[k]);
    }
}

/// No resolved address is dropped: each is written among the candidates.
pub proof fn lemma_every_address_is_tried(
    host: Seq<char>,
    resolved: Seq<ResolvedAddressView>,
    at: int,
)
    requires
        0 <= at < resolved.len(),
    ensures
        has_address(
            connection_hosts(host, resolved),
            candidate_text(resolved[at], port_colon(host) is Some),
        ),
{
    let with_port = port_colon(host) is Some;
    let all = all_candidates(host, resolved);
    let v6 = family_candidates(resolved, true, with_port);
    let v4 = family_candidates(resolved, false, with_port);
    let text = candidate_text(resolved[at], with_port);
    if resolved[at].is_ipv6 {
        lemma_family_holds(resolved, true, with_port, at);
        let k = choose|k: int| 0 <= k < v6.len() && (#[trigger] v6[k]).1 == text;
        assert(all[1 + k] == v6[k]);
    } else {
        lemma_family_holds(resolved, false, with_port, at);
        let k = choose|k: int| 0 <= k < v4.len() && (#[trigger] v4[k]).1 == text;
        assert(all[1 + v6.len() + k] == v4[k]);
    }
    assert(has_address(all, text));
    lemma_first_seen(all);
}

/// An address that resolves to nothing but itself has one candidate.
///
/// This is the case of an address that is a literal IP in the form in which
/// addresses are written back: resolution gives the address itself, and the
/// list holds it once.
pub proof fn lemma_literal_address(host: Seq<char>, resolved: Seq<ResolvedAddressView>)
    requires
        forall|i: int|
            0 <= i < resolved.len() ==> candidate_text(
                #[trigger] resolved[i],
                port_colon(host) is Some,
            ) == host,
    ensures
        connection_hosts(host, resolved) == seq![(original_label(), host)],
{
    let all = all_candidates(host, resolved);
    let with_port = port_colon(host) is Some;
    lemma_family_texts(resolved, true, with_port, host);
    lemma_family_texts(resolved, false, with_port, host);
    assert forall|i: int| 0 <= i < all.len() implies (#[trigger] all[i]).1 == host by {
        let v6 = family_candidates(resolved, true, with_port);
        if i >= 1 {
            if i - 1 < v6.len() {
                assert(all[i] == v6[i - 1]);
            } else {
                assert(all[i] == family_candidates(resolved, false, with_port)[i - 1 - v6.len()]);
            }
        }
    }
    lemma_first_seen_single(all, all.len() as int);
    assert(all.take(all.len() as int) == all);
}

/// Where every resolved address is written as `text`, every candidate of a
/// family holds `text`.
proof fn lemma_family_texts(
    resolved: Seq<ResolvedAddressView>,
    ipv6: bool,
    with_port: bool,
    text: Seq<char>,
)
    requires
        forall|i: int|
            0 <= i < resolved.len() ==> candidate_text(#[trigger] resolved[i], with_port) == text,
    ensures
        forall|i: int|
            0 <= i < family_candidates(resolved, ipv6, with_port).len() ==> (
            #[trigger] family_candidates(resolved, ipv6, with_port)[i]).1 == text,
    decreases resolved.len(),
{
    if resolved.len() > 0 {
        let earlier = resolved.drop_last();
        assert forall|i: int| 0 <= i < earlier.len() implies candidate_text(
            #[trigger] earlier[i],
            with_port,
        ) == text by {
            assert(earlier[i] == resolved[i]);
        }
        lemma_family_texts(earlier, ipv6, with_port, text);
        assert(candidate_text(resolved[resolved.len() - 1], with_port) == text);
        let family = family_candidates(resolved, ipv6, with_port);
        let before = family_candidates(earlier, ipv6, with_port);
        assert forall|i: int| 0 <= i < family.len() implies (#[trigger] family[i]).1 == text by {
            if i < before.len() {
                assert(family[i] == before[i]);
            }
        }
    }
}

/// Of candidates that all hold one address, only the first is kept.
proof fn lemma_first_seen_single(candidates: Seq<Candidate>, n: int)
    requires
        1 <= n <= candidates.len(),
        forall|i: int|
            0 <= i < candidates.len() ==> (#[trigger] candidates[i]).1 == candidates[0].1,
    ensures
        first_seen(candidates.take(n)) == seq![candidates[0]],
    decreases n,
{
    let prefix = candidates.take(n);
    if n == 1 {
        assert(prefix.drop_last() =~= Seq::<Candidate>::empty());
        assert(first_seen(prefix.drop_last()) =~= Seq::<Candidate>::empty());
        assert(!has_address(prefix.drop_last(), prefix.last().1));
        assert(first_seen(prefix) =~= seq![candidates[0]]);
    } else {
        lemma_first_seen_single(candidates, n - 1);
        assert(prefix.drop_last() == candidates.take(n - 1));
        assert(prefix.drop_last()[0].1 == prefix.last().1);
    }
}

} // verus!
