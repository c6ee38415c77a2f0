//! Which hosts belong to the networks that a crawl is limited to.
//!
//! A host is looked up by name or read as a literal address outside this
//! library; here its addresses are held against a comma-separated list of
//! address ranges. The `ipaddress` crate reads the addresses and the ranges.

use crate::text::{chars_of, lemma_filter_push, split, split_on};
use vstd::prelude::*;

verus! {

/// The most colons that a text may hold to be read as an address or a range.
/// An IPv6 address has at most eight.
pub const MAX_COLONS: usize = 8;

/// Whether the range `range` holds the address `address`, as the `ipaddress`
/// crate reads the two texts; `None` where it reads one of them as neither
/// an IPv4 nor an IPv6 address.
pub uninterp spec fn range_includes(range: Seq<char>, address: Seq<char>) -> Option<bool>;

/// Whether `c` may stand in a hostname.
pub open spec fn is_hostname_char(c: char) -> bool {
    ('a' <= c <= 'z') || ('A' <= c <= 'Z') || ('0' <= c <= '9') || c == '-' || c == '.'
}

/// Whether `name` has the form of a hostname: letters, digits, hyphens and
/// dots, at least one character, and neither a hyphen nor a dot at its start
/// or at its end.
pub open spec fn valid_hostname(name: Seq<char>) -> bool {
    &&& name.len() > 0
    &&& forall|i: int| 0 <= i < name.len() ==> is_hostname_char(#[trigger] name[i])
    &&& name.first() != '-'
    &&& name.first() != '.'
    &&& name.last() != '-'
    &&& name.last() != '.'
}

/// How many colons `text` holds.
pub open spec fn colons(text: Seq<char>) -> nat {
    text.filter(|c: char| c == ':').len()
}

/// Whether `text` is short enough in colons to be read as an address.
pub open spec fn is_readable(text: Seq<char>) -> bool {
    colons(text) <= MAX_COLONS
}

/// Whether the range `range` holds the address `address`: both are readable,
/// both are addresses, and the range includes the address.
pub open spec fn holds(range: Seq<char>, address: Seq<char>) -> bool {
    is_readable(range) && is_readable(address) && range_includes(range, address) == Some(true)
}

/// Whether one of `ranges` holds one of `addresses`.
pub open spec fn some_range_holds(ranges: Seq<Seq<char>>, addresses: Seq<Seq<char>>) -> bool {
    exists|i: int, j: int|
        0 <= i < ranges.len() && 0 <= j < addresses.len() && holds(
            #[trigger] ranges[i],
            #[trigger] addresses[j],
        )
}

/// Whether one of the comma-separated ranges of `networks` holds one of
/// `addresses`.
pub open spec fn in_networks(addresses: Seq<Seq<char>>, networks: Seq<char>) -> bool {
    some_range_holds(split_on(networks, ','), addresses)
}

/// `ipaddress::IPAddress::parse` reads `range` and `address`, and
/// `ipaddress::IPAddress::includes` says whether the first, as a network,
/// includes the second. The result is `None` where `parse` refuses one of
/// the texts. `parse` fails on a text with nine or more groups before `::`,
/// which no text with at most eight colons has. For an IPv4-mapped IPv6
/// address it prints a line on standard output.
#[verifier::external_body]
fn includes(range: &str, address: &str) -> (held: Option<bool>)
    requires
        is_readable(range@),
        is_readable(address@),
    ensures
        held == range_includes(range@, address@),
{
    let network = ipaddress::IPAddress::parse(range).ok()?;
    let host = ipaddress::IPAddress::parse(address).ok()?;
    Some(network.includes(&host))
}

/// Whether `hostname` has the form of a hostname.
pub fn is_valid_hostname(hostname: &str) -> (valid: bool)
    ensures
        valid == valid_hostname(hostname@),
{
    let chars = chars_of(hostname);
    let n = chars.len();
    if n == 0 {
        return false;
    }
    let mut i: usize = 0;
    while i < n
        invariant
            i <= n == chars.len(),
            chars@ == hostname@,
            forall|k: int| 0 <= k < i ==> is_hostname_char(#[trigger] chars@[k]),
        decreases n - i,
    {
        let c = chars[i];
        let fits = ('a' <= c && c <= 'z') || ('A' <= c && c <= 'Z') || ('0' <= c && c <= '9') || c
            == '-' || c == '.';
        if !fits {
            assert(!is_hostname_char(hostname@[i as int]));
            return false;
        }
        i += 1;
    }
    let first = chars[0];
    let last = chars[n - 1];
    first != '-' && first != '.' && last != '-' && last != '.'
}

/// Whether `text` holds at most `MAX_COLONS` colons.
pub fn has_few_colons(text: &str) -> (few: bool)
    ensures
        few == is_readable(text@),
{
    let chars = chars_of(text);
    let ghost is_colon = |c: char| c == ':';
    let mut count: usize = 0;
    let mut i: usize = 0;
    assert(chars@.take(0).filter(is_colon) =~= Seq::<char>::empty()) by {
        reveal(Seq::filter);
    }
    while i < chars.len()
        invariant
            i <= chars.len(),
            is_colon == |c: char| c == ':',
            count == chars@.take(i as int).filter(is_colon).len(),
            count <= i,
        decreases chars.len() - i,
    {
        proof {
            lemma_filter_push(chars@.take(i as int), chars@[i as int], is_colon);
            assert(chars@.take(i as int + 1) =~= chars@.take(i as int).push(chars@[i as int]));
        }
        if chars[i] == ':' {
            count += 1;
        }
        i += 1;
    }
    assert(chars@.take(i as int) =~= chars@);
    count <= MAX_COLONS
}

/// Whether the range `range` holds the address `address`.
pub fn range_holds(range: &str, address: &str) -> (held: bool)
    ensures
        held == holds(range@, address@),
{
    if !has_few_colons(range) || !has_few_colons(address) {
        return false;
    }
    match includes(range, address) {
        Some(held) => held,
        None => false,
    }
}

/// Whether a host with the addresses `addresses` belongs to one of the
/// comma-separated address ranges of `networks`. A range that cannot be read
/// holds no address, and a host without addresses belongs to no network.
pub fn is_host_in_network(addresses: &Vec<String>, networks: &str) -> (inside: bool)
    ensures
        inside == in_networks(addresses.deep_view(), networks@),
        addresses.len() == 0 ==> !inside,
{
    let ranges = split(networks, ',');
    let mut i: usize = 0;
    while i < ranges.len()
        invariant
            i <= ranges.len(),
            ranges.deep_view() == split_on(networks@, ','),
            forall|a: int, b: int|
                0 <= a < i && 0 <= b < addresses.len() ==> !holds(
                    #[trigger] ranges.deep_view()[a],
                    #[trigger] addresses.deep_view()[b],
                ),
        decreases ranges.len() - i,
    {
        let mut j: usize = 0;
        while j < addresses.len()
            invariant
                i < ranges.len(),
                j <= addresses.len(),
                ranges.deep_view() == split_on(networks@, ','),
                forall|a: int, b: int|
                    0 <= a < i && 0 <= b < addresses.len() ==> !holds(
                        #[trigger] ranges.deep_view()[a],
                        #[trigger] addresses.deep_view()[b],
                    ),
                forall|b: int|
                    0 <= b < j ==> !holds(
                        ranges.deep_view()[i as int],
                        #[trigger] addresses.deep_view()[b],
                    ),
            decreases addresses.len() - j,
        {
            if range_holds(ranges[i].as_str(), addresses[j].as_str()) {
                assert(holds(ranges.deep_view()[i as int], addresses.deep_view()[j as int]));
                assert(some_range_holds(ranges.deep_view(), addresses.deep_view()));
                return true;
            }
            j += 1;
        }
        i += 1;
    }
    false
}

} // verus!
