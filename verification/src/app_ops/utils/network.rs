use vstd::prelude::*;
use crate::text::{split_on, split_str, views, lemma_split_nonempty, lemma_split_first};

verus! {

/// An address of a network interface of the host, as read from the system.
pub enum InterfaceAddress {
    /// The interface has an address of a family that cannot be read.
    Unreadable { interface_name: String },
    /// An IPv4 socket address, in its text form `a.b.c.d:port`.
    Inet { address: String },
    /// An address of another family.
    OtherFamily,
}

/// The text forms of the IPv4 addresses among `interfaces`, in order.
pub open spec fn inet_addresses(interfaces: Seq<InterfaceAddress>) -> Seq<Seq<char>>
    decreases interfaces.len(),
{
    if interfaces.len() == 0 {
        Seq::empty()
    } else {
        let rest = inet_addresses(interfaces.drop_last());
        match interfaces.last() {
            InterfaceAddress::Inet { address } => rest.push(address@),
            _ => rest,
        }
    }
}

pub open spec fn is_inet(a: InterfaceAddress) -> bool {
    a is Inet
}

/// The text of an IPv4 address entry.
pub open spec fn inet_text(a: InterfaceAddress) -> Seq<char> {
    match a {
        InterfaceAddress::Inet { address } => address@,
        _ => Seq::empty(),
    }
}

/// The IPv4 candidates are every IPv4 entry of the interfaces, each once, in
/// their order, whatever stands around them; no other entry.
pub proof fn law_every_inet_address_is_a_candidate(interfaces: Seq<InterfaceAddress>)
    ensures
        inet_addresses(interfaces) == interfaces.filter(|a: InterfaceAddress| is_inet(a)).map_values(
            |a: InterfaceAddress| inet_text(a),
        ),
        inet_addresses(interfaces).len() == interfaces.filter(|a: InterfaceAddress| is_inet(a)).len(),
    decreases interfaces.len(),
{
    let f = |a: InterfaceAddress| is_inet(a);
    let g = |a: InterfaceAddress| inet_text(a);
    if interfaces.len() > 0 {
        let rest = interfaces.drop_last();
        law_every_inet_address_is_a_candidate(rest);
        let fr = rest.filter(f);
        assert(rest.push(interfaces.last()) =~= interfaces);
        rest.lemma_filter_push(interfaces.last(), f);
        if is_inet(interfaces.last()) {
            assert(interfaces.filter(f) == fr.push(interfaces.last()));
            assert(fr.push(interfaces.last()).map_values(g) =~= fr.map_values(g).push(inet_text(interfaces.last())));
        } else {
            assert(interfaces.filter(f) == fr);
        }
    } else {
        assert(interfaces.filter(f) =~= Seq::<InterfaceAddress>::empty());
        assert(inet_addresses(interfaces) =~= interfaces.filter(f).map_values(g));
    }
}

/// The text forms of the IPv4 addresses among `interfaces`, in order.
pub fn ipv4_addresses(interfaces: &Vec<InterfaceAddress>) -> (r: Vec<String>)
    ensures
        r@.map_values(|s: String| s@) == inet_addresses(interfaces@),
        r@.map_values(|s: String| s@) == interfaces@.filter(|a: InterfaceAddress| is_inet(a)).map_values(
            |a: InterfaceAddress| inet_text(a),
        ),
        r@.len() == interfaces@.filter(|a: InterfaceAddress| is_inet(a)).len(),
{
    proof {
        law_every_inet_address_is_a_candidate(interfaces@);
    }
    let mut r: Vec<String> = Vec::new();
    let mut i: usize = 0;
    while i < interfaces.len()
        invariant
            i <= interfaces@.len(),
            r@.map_values(|s: String| s@) == inet_addresses(interfaces@.take(i as int)),
        decreases interfaces@.len() - i,
    {
        proof {
            assert(interfaces@.take(i + 1).drop_last() =~= interfaces@.take(i as int));
            assert(interfaces@.take(i + 1).last() == interfaces@[i as int]);
        }
        let ghost prev = r@;
        match &interfaces[i] {
            InterfaceAddress::Inet { address } => {
                r.push(address.clone());
                assert(r@.map_values(|s: String| s@) =~= prev.map_values(|s: String| s@).push(
                    address@,
                ));
            },
            _ => {},
        }
        i = i + 1;
    }
    assert(interfaces@.take(interfaces@.len() as int) =~= interfaces@);
    r
}

pub open spec fn starts_with(s: Seq<char>, prefix: Seq<char>) -> bool {
    s.len() >= prefix.len() && s.take(prefix.len() as int) == prefix
}

/// The text before the first `:` (all of it when there is none).
pub open spec fn host_part(address: Seq<char>) -> Seq<char> {
    split_on(address, ':')[0]
}

pub open spec fn loopback() -> Seq<char> {
    seq!['1', '2', '7', '.', '0', '.', '0', '.', '1']
}

/// The address the host is announced at: the host part of the first IPv4
/// address, or of the second when the first is the loopback address.
pub open spec fn announced_address(addresses: Seq<Seq<char>>) -> Seq<char> {
    if addresses.len() > 1 && starts_with(addresses[0], loopback()) {
        host_part(addresses[1])
    } else {
        host_part(addresses[0])
    }
}

/// The host part of an address is the text before its first `:`: a prefix
/// of the address, holding no `:`, followed by a `:` or by nothing.
pub proof fn law_host_part(address: Seq<char>)
    ensures
        host_part(address).len() <= address.len(),
        address.take(host_part(address).len() as int) == host_part(address),
        !host_part(address).contains(':'),
        host_part(address).len() == address.len() || address[host_part(address).len() as int] == ':',
{
    lemma_split_first(address, ':');
}

/// The announced address is the host part of the second address when the
/// first is the loopback address and there is a second one, and the host
/// part of the first otherwise; it never holds a `:`.
pub proof fn law_announced_address(addresses: Seq<Seq<char>>)
    requires
        addresses.len() > 0,
    ensures
        addresses.len() > 1 && addresses[0].len() >= 9 && addresses[0].take(9) == seq![
            '1',
            '2',
            '7',
            '.',
            '0',
            '.',
            '0',
            '.',
            '1',
        ] ==> announced_address(addresses) == host_part(addresses[1]),
        !(addresses.len() > 1 && addresses[0].len() >= 9 && addresses[0].take(9) == seq![
            '1',
            '2',
            '7',
            '.',
            '0',
            '.',
            '0',
            '.',
            '1',
        ]) ==> announced_address(addresses) == host_part(addresses[0]),
        !announced_address(addresses).contains(':'),
{
    assert(loopback() =~= seq!['1', '2', '7', '.', '0', '.', '0', '.', '1']);
    law_host_part(addresses[0]);
    if addresses.len() > 1 {
        law_host_part(addresses[1]);
    }
}

fn str_starts_with(s: &str, prefix: &str) -> (r: bool)
    ensures
        r == starts_with(s@, prefix@),
{
    let n = s.unicode_len();
    let m = prefix.unicode_len();
    if n < m {
        return false;
    }
    let mut i: usize = 0;
    while i < m
        invariant
            n == s@.len(),
            m == prefix@.len(),
            m <= n,
            i <= m,
            forall|j: int| 0 <= j < i ==> s@[j] == prefix@[j],
        decreases m - i,
    {
        if s.get_char(i) != prefix.get_char(i) {
            assert(s@.take(m as int)[i as int] != prefix@[i as int]);
            return false;
        }
        i = i + 1;
    }
    assert(s@.take(m as int) =~= prefix@);
    true
}

fn host_part_of(address: &str) -> (r: String)
    ensures
        r@ == host_part(address@),
{
    let pieces = split_str(address, ':');
    proof {
        lemma_split_nonempty(address@, ':');
        assert(views(pieces@)[0] == pieces@[0]@);
    }
    pieces[0].to_owned()
}

/// The address the host is announced at, chosen among the text forms of its
/// IPv4 addresses.
pub fn select_host_ip_address(addresses: &Vec<String>) -> (r: String)
    requires
        addresses@.len() > 0,
    ensures
        r@ == announced_address(addresses@.map_values(|s: String| s@)),
        addresses@.len() > 1 && addresses@[0]@.len() >= 9 && addresses@[0]@.take(9) == seq![
            '1',
            '2',
            '7',
            '.',
            '0',
            '.',
            '0',
            '.',
            '1',
        ] ==> r@ == host_part(addresses@[1]@),
        !(addresses@.len() > 1 && addresses@[0]@.len() >= 9 && addresses@[0]@.take(9) == seq![
            '1',
            '2',
            '7',
            '.',
            '0',
            '.',
            '0',
            '.',
            '1',
        ]) ==> r@ == host_part(addresses@[0]@),
        !r@.contains(':'),
{
    proof {
        law_announced_address(addresses@.map_values(|s: String| s@));
    }
    proof {
        reveal_strlit("127.0.0.1");
        assert("127.0.0.1"@ =~= loopback());
    }
    let ghost texts = addresses@.map_values(|s: String| s@);
    assert(texts[0] == addresses@[0]@);
    if addresses.len() > 1 && str_starts_with(addresses[0].as_str(), "127.0.0.1") {
        assert(texts[1] == addresses@[1]@);
        host_part_of(addresses[1].as_str())
    } else {
        host_part_of(addresses[0].as_str())
    }
}

} // verus!
