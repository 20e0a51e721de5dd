//! The system statistics helper: memory, CPU and network interfaces as
//! i3bar blocks.

use vstd::prelude::*;
use crate::decimal::{decimal, u64_to_string};
use crate::parse::repeat;
use crate::protocol::{fields_view, opt_field, Block, I3Value, I3ValueView};
use crate::text::{chars_of, insert_sorted, owned, push_char, push_str, string_of, strictly_sorted, strings_view};
use crate::vars::NameMap;

verus! {

/// The text of a socket address without a zero port (`:0`) at its end.
pub open spec fn spec_sockaddr_to_str(s: Seq<char>) -> Seq<char> {
    if s.len() >= 2 && s[s.len() - 2] == ':' && s[s.len() - 1] == '0' {
        s.subrange(0, s.len() - 2)
    } else {
        s
    }
}

/// The text of a socket address, as the system prints it, without a zero
/// port.
pub fn sockaddr_to_str(text: &str) -> (r: String)
    ensures
        r@ == spec_sockaddr_to_str(text@),
{
    let v = chars_of(text);
    let n = v.len();
    if n >= 2 && v[n - 2] == ':' && v[n - 1] == '0' {
        string_of(&v, 0, n - 2)
    } else {
        owned(text)
    }
}

/// One address of a network interface, with the interface's flags.
#[derive(Debug)]
pub struct Address {
    pub up: bool,
    pub running: bool,
    pub address: Option<String>,
    pub netmask: Option<String>,
    pub broadcast: Option<String>,
    pub destination: Option<String>,
}

/// The addresses of a network interface by family.
#[derive(Debug)]
pub struct Interface {
    pub mac: Vec<Address>,
    pub ipv4: Vec<Address>,
    pub ipv6: Vec<Address>,
}

/// The family of an interface address: the link layer, IPv4, IPv6, or
/// another one.
#[derive(PartialEq, Eq, Structural, Clone, Copy, Debug)]
pub enum Family {
    Link,
    Inet,
    Inet6,
    Other,
}

/// One entry of the system's list of interface addresses, each address as
/// the system prints it.
#[derive(Debug)]
pub struct IfAddr {
    pub interface_name: String,
    pub running: bool,
    pub up: bool,
    pub address: Option<String>,
    /// The family of `address`.
    pub family: Family,
    pub netmask: Option<String>,
    pub broadcast: Option<String>,
    pub destination: Option<String>,
}

/// An optional address text without a zero port.
pub open spec fn address_text(o: Option<String>) -> Option<Seq<char>> {
    match o {
        Some(s) => Some(spec_sockaddr_to_str(s@)),
        None => None,
    }
}

/// The characters of an optional string.
pub open spec fn opt_chars(o: Option<String>) -> Option<Seq<char>> {
    match o {
        Some(s) => Some(s@),
        None => None,
    }
}

/// `a` is the address that the entry `e` lists.
pub open spec fn address_from(e: IfAddr, a: Address) -> bool {
    &&& a.up == e.up
    &&& a.running == e.running
    &&& opt_chars(a.address) == address_text(e.address)
    &&& opt_chars(a.netmask) == address_text(e.netmask)
    &&& opt_chars(a.broadcast) == address_text(e.broadcast)
    &&& opt_chars(a.destination) == address_text(e.destination)
}

/// The entries of the interface `n` that have an address of the family `f`,
/// in their order.
pub open spec fn with_family(s: Seq<IfAddr>, n: Seq<char>, f: Family) -> Seq<IfAddr>
    decreases s.len(),
{
    if s.len() == 0 {
        Seq::empty()
    } else {
        let rest = with_family(s.drop_last(), n, f);
        let e = s.last();
        if e.interface_name@ == n && e.address is Some && e.family == f {
            rest.push(e)
        } else {
            rest
        }
    }
}

/// `v` lists the addresses of the entries `s`, one for one.
pub open spec fn lists_addresses(v: Seq<Address>, s: Seq<IfAddr>) -> bool {
    v.len() == s.len() && forall|i: int| 0 <= i < v.len() ==> address_from(#[trigger] s[i], v[i])
}

/// Some entry of the interface `n` has an address.
pub open spec fn has_address(s: Seq<IfAddr>, n: Seq<char>) -> bool {
    exists|j: int| 0 <= j < s.len() && #[trigger] s[j].interface_name@ == n && s[j].address is Some
}

fn opt_address_text(o: &Option<String>) -> (r: Option<String>)
    ensures
        opt_chars(r) == address_text(*o),
{
    match o {
        Some(s) => Some(sockaddr_to_str(s.as_str())),
        None => None,
    }
}

fn address_of(e: &IfAddr) -> (r: Address)
    ensures
        address_from(*e, r),
{
    Address {
        up: e.up,
        running: e.running,
        address: opt_address_text(&e.address),
        netmask: opt_address_text(&e.netmask),
        broadcast: opt_address_text(&e.broadcast),
        destination: opt_address_text(&e.destination),
    }
}

fn collect_family(addrs: &Vec<IfAddr>, name: &str, family: Family) -> (r: Vec<Address>)
    ensures
        lists_addresses(r@, with_family(addrs@, name@, family)),
{
    let mut r: Vec<Address> = Vec::new();
    let mut i: usize = 0;
    while i < addrs.len()
        invariant
            i <= addrs@.len(),
            lists_addresses(r@, with_family(addrs@.take(i as int), name@, family)),
        decreases addrs@.len() - i,
    {
        let e = &addrs[i];
        let ghost before = r@;
        assert(addrs@.take(i + 1).drop_last() =~= addrs@.take(i as int));
        assert(addrs@.take(i + 1).last() == addrs@[i as int]);
        if e.address.is_some() && e.family == family && crate::text::str_eq(e.interface_name.as_str(), name) {
            r.push(address_of(e));
            proof {
                let w = with_family(addrs@.take(i + 1), name@, family);
                assert forall|k: int| 0 <= k < r@.len() implies address_from(#[trigger] w[k], r@[k]) by {
                    if k < before.len() {
                        assert(w[k] == with_family(addrs@.take(i as int), name@, family)[k]);
                    }
                }
            }
        }
        i += 1;
    }
    assert(addrs@.take(i as int) =~= addrs@);
    r
}

/// The interfaces that have an address, sorted by name, each with its
/// link-layer, IPv4 and IPv6 addresses in the order the system lists them.
pub fn get_interfaces(addrs: &Vec<IfAddr>) -> (r: Vec<(String, Interface)>)
    ensures
        strictly_sorted(r@.map_values(|p: (String, Interface)| p.0@)),
        forall|n: Seq<char>| has_address(addrs@, n) <==> exists|i: int| 0 <= i < r@.len() && #[trigger] r@[i].0@ == n,
        forall|i: int| 0 <= i < r@.len() ==> {
            let (n, ifc) = #[trigger] r@[i];
            &&& lists_addresses(ifc.mac@, with_family(addrs@, n@, Family::Link))
            &&& lists_addresses(ifc.ipv4@, with_family(addrs@, n@, Family::Inet))
            &&& lists_addresses(ifc.ipv6@, with_family(addrs@, n@, Family::Inet6))
        },
{
    let mut names: Vec<String> = Vec::new();
    let mut i: usize = 0;
    while i < addrs.len()
        invariant
            i <= addrs@.len(),
            strictly_sorted(strings_view(names@)),
            forall|n: Seq<char>| has_address(addrs@.take(i as int), n) <==> strings_view(names@).contains(n),
        decreases addrs@.len() - i,
    {
        let ghost before = strings_view(names@);
        if addrs[i].address.is_some() {
            insert_sorted(&mut names, addrs[i].interface_name.clone());
        }
        proof {
            let t = addrs@.take(i + 1);
            assert forall|n: Seq<char>| has_address(t, n) <==> strings_view(names@).contains(n) by {
                if has_address(t, n) {
                    let j = choose|j: int| 0 <= j < t.len() && #[trigger] t[j].interface_name@ == n && t[j].address is Some;
                    if j < i {
                        assert(addrs@.take(i as int)[j] == t[j]);
                        assert(has_address(addrs@.take(i as int), n));
                        assert(before.contains(n));
                        assert(before.to_set().contains(n));
                        assert(strings_view(names@).to_set().contains(n));
                    } else {
                        assert(strings_view(names@).to_set().contains(n));
                    }
                }
                if strings_view(names@).contains(n) {
                    assert(strings_view(names@).to_set().contains(n));
                    if before.to_set().contains(n) {
                        assert(before.contains(n));
                        assert(has_address(addrs@.take(i as int), n));
                        let j = choose|j: int| 0 <= j < i && #[trigger] addrs@.take(i as int)[j].interface_name@ == n
                            && addrs@.take(i as int)[j].address is Some;
                        assert(t[j] == addrs@.take(i as int)[j]);
                    } else {
                        assert(t[i as int] == addrs@[i as int]);
                        assert(t[i as int].interface_name@ == n);
                    }
                }
            }
        }
        i += 1;
    }
    assert(addrs@.take(i as int) =~= addrs@);
    let mut r: Vec<(String, Interface)> = Vec::new();
    let mut k: usize = 0;
    while k < names.len()
        invariant
            k <= names@.len(),
            r@.len() == k,
            forall|j: int| 0 <= j < k ==> #[trigger] r@[j].0@ == names@[j]@,
            forall|j: int| 0 <= j < k ==> {
                let (n, ifc) = #[trigger] r@[j];
                &&& lists_addresses(ifc.mac@, with_family(addrs@, n@, Family::Link))
                &&& lists_addresses(ifc.ipv4@, with_family(addrs@, n@, Family::Inet))
                &&& lists_addresses(ifc.ipv6@, with_family(addrs@, n@, Family::Inet6))
            },
        decreases names@.len() - k,
    {
        let name = names[k].as_str();
        let ifc = Interface {
            mac: collect_family(addrs, name, Family::Link),
            ipv4: collect_family(addrs, name, Family::Inet),
            ipv6: collect_family(addrs, name, Family::Inet6),
        };
        r.push((names[k].clone(), ifc));
        k += 1;
    }
    proof {
        let keys = r@.map_values(|p: (String, Interface)| p.0@);
        assert(keys =~= strings_view(names@));
        assert forall|n: Seq<char>| has_address(addrs@, n) <==> exists|i: int| 0 <= i < r@.len() && #[trigger] r@[i].0@ == n by {
            if has_address(addrs@, n) {
                assert(strings_view(names@).contains(n));
                let i = choose|i: int| 0 <= i < strings_view(names@).len() && strings_view(names@)[i] == n;
                assert(r@[i].0@ == n);
            }
            if exists|i: int| 0 <= i < r@.len() && #[trigger] r@[i].0@ == n {
                let i = choose|i: int| 0 <= i < r@.len() && #[trigger] r@[i].0@ == n;
                assert(strings_view(names@)[i] == n);
                assert(strings_view(names@).contains(n));
            }
        }
    }
    r
}

/// The fields of one address, under the prefix `prefix`: its flags, then
/// those of its texts that are present.
pub open spec fn address_fields(prefix: Seq<char>, a: Address) -> Seq<(Seq<char>, I3ValueView)> {
    seq![(prefix + "_run"@, I3ValueView::Bool(a.running)), (prefix + "_up"@, I3ValueView::Bool(a.up))]
        + opt_field(prefix + "_addr"@, a.address) + opt_field(prefix + "_mask"@, a.netmask)
        + opt_field(prefix + "_broadcast"@, a.broadcast) + opt_field(prefix + "_dest"@, a.destination)
}

/// The fields of a list of addresses, the `i`-th under `family` followed by `i`.
pub open spec fn family_fields(family: Seq<char>, v: Seq<Address>) -> Seq<(Seq<char>, I3ValueView)>
    decreases v.len(),
{
    if v.len() == 0 {
        Seq::empty()
    } else {
        family_fields(family, v.drop_last()) + address_fields(family + decimal((v.len() - 1) as nat), v.last())
    }
}

/// The text of the first running address that has one.
pub open spec fn first_up(v: Seq<Address>) -> Option<Seq<char>>
    decreases v.len(),
{
    if v.len() == 0 {
        None
    } else if v[0].running && v[0].address is Some {
        Some(v[0].address->0@)
    } else {
        first_up(v.drop_first())
    }
}

/// What the block of an interface says: its first running IPv4 address,
/// else its first running IPv6 one, else that it is down.
pub open spec fn network_text(name: Seq<char>, ifc: Interface) -> Seq<char> {
    name + ": "@ + match first_up(ifc.ipv4@) {
        Some(a) => a,
        None => match first_up(ifc.ipv6@) {
            Some(a) => a,
            None => "down"@,
        },
    }
}

/// The byte counts received and sent per second: the growth of the counters
/// since the last reading, when there are two readings.
pub open spec fn rate_fields(stats: Option<(u64, u64)>, last: Option<(u64, u64)>) -> Seq<(Seq<char>, I3ValueView)> {
    match (stats, last) {
        (Some(s), Some(l)) => seq![
            ("rx_per_sec"@, I3ValueView::Json(decimal((s.0 - l.0) as nat))),
            ("tx_per_sec"@, I3ValueView::Json(decimal((s.1 - l.1) as nat))),
        ],
        _ => Seq::empty(),
    }
}

/// The counters grew since the last reading (the rates are their growth).
pub open spec fn counters_grew(stats: Option<(u64, u64)>, last: Option<(u64, u64)>) -> bool {
    match (stats, last) {
        (Some(s), Some(l)) => l.0 <= s.0 && l.1 <= s.1,
        _ => true,
    }
}

fn push_opt_field(other: &mut Vec<(String, I3Value)>, prefix: &str, suffix: &str, o: &Option<String>)
    ensures
        fields_view(final(other)@) == fields_view(old(other)@) + opt_field(prefix@ + suffix@, *o),
{
    match o {
        Some(v) => {
            let mut key = owned(prefix);
            push_str(&mut key, suffix);
            other.push((key, I3Value::Str(v.clone())));
            assert(fields_view(other@) =~= fields_view(old(other)@) + opt_field(prefix@ + suffix@, *o));
        },
        None => {
            assert(fields_view(other@) =~= fields_view(old(other)@) + opt_field(prefix@ + suffix@, *o));
        },
    }
}

/// Adds the fields of one address under the prefix `prefix`.
pub fn insert_address(other: &mut Vec<(String, I3Value)>, prefix: &str, address: &Address)
    ensures
        fields_view(final(other)@) == fields_view(old(other)@) + address_fields(prefix@, *address),
{
    let ghost start = fields_view(other@);
    let mut run = owned(prefix);
    push_str(&mut run, "_run");
    other.push((run, I3Value::Bool(address.running)));
    let mut up = owned(prefix);
    push_str(&mut up, "_up");
    other.push((up, I3Value::Bool(address.up)));
    assert(fields_view(other@) =~= start + seq![
        (prefix@ + "_run"@, I3ValueView::Bool(address.running)),
        (prefix@ + "_up"@, I3ValueView::Bool(address.up)),
    ]);
    push_opt_field(other, prefix, "_addr", &address.address);
    push_opt_field(other, prefix, "_mask", &address.netmask);
    push_opt_field(other, prefix, "_broadcast", &address.broadcast);
    push_opt_field(other, prefix, "_dest", &address.destination);
    assert(fields_view(other@) =~= start + address_fields(prefix@, *address));
}

fn push_family_fields(other: &mut Vec<(String, I3Value)>, family: &str, v: &Vec<Address>)
    ensures
        fields_view(final(other)@) == fields_view(old(other)@) + family_fields(family@, v@),
{
    let ghost start = fields_view(other@);
    let mut i: usize = 0;
    assert(v@.take(0) =~= Seq::<Address>::empty());
    assert(start + family_fields(family@, v@.take(0)) =~= start);
    while i < v.len()
        invariant
            i <= v@.len(),
            fields_view(other@) == start + family_fields(family@, v@.take(i as int)),
        decreases v@.len() - i,
    {
        let mut prefix = owned(family);
        let idx = crate::decimal::usize_to_string(i);
        push_str(&mut prefix, idx.as_str());
        insert_address(other, prefix.as_str(), &v[i]);
        assert(v@.take(i + 1).drop_last() =~= v@.take(i as int));
        assert(v@.take(i + 1).last() == v@[i as int]);
        assert(fields_view(other@) =~= start + family_fields(family@, v@.take(i + 1)));
        i += 1;
    }
    assert(v@.take(i as int) =~= v@);
}

fn first_up_in(v: &Vec<Address>) -> (r: Option<&String>)
    ensures
        match r {
            Some(a) => first_up(v@) == Some(a@),
            None => first_up(v@) is None,
        },
{
    let mut i: usize = 0;
    assert(v@.skip(0) =~= v@);
    while i < v.len()
        invariant
            i <= v@.len(),
            first_up(v@) == first_up(v@.skip(i as int)),
        decreases v@.len() - i,
    {
        assert(v@.skip(i as int)[0] == v@[i as int]);
        assert(v@.skip(i as int).drop_first() =~= v@.skip(i + 1));
        if v[i].running {
            match &v[i].address {
                Some(a) => {
                    return Some(a);
                },
                None => {},
            }
        }
        i += 1;
    }
    None
}

/// The block of a network interface: its addresses as fields, the rates
/// when there are two readings of its counters, and its first running
/// address as the text. `stats` is the present reading of the counters
/// (received, sent), if there is one; it becomes the last reading.
pub fn network(
    name: &str,
    interface: &Interface,
    stats: Option<(u64, u64)>,
    network_stats: &mut NameMap<(u64, u64)>,
) -> (r: Vec<Block>)
    requires
        counters_grew(
            stats,
            if old(network_stats)@.contains_key(name@) {
                Some(old(network_stats)@[name@])
            } else {
                None
            },
        ),
    ensures
        r@.len() == 1,
        r@[0].name matches Some(n) && n@ == "net"@,
        r@[0].instance matches Some(i) && i@ == name@,
        r@[0].full_text@ == network_text(name@, *interface),
        fields_view(r@[0].other@) == family_fields("ipv4_"@, interface.ipv4@) + family_fields("ipv6_"@, interface.ipv6@)
            + family_fields("mac_"@, interface.mac@) + rate_fields(
            stats,
            if old(network_stats)@.contains_key(name@) {
                Some(old(network_stats)@[name@])
            } else {
                None
            },
        ),
        final(network_stats)@ == match stats {
            Some(s) => old(network_stats)@.insert(name@, s),
            None => old(network_stats)@,
        },
{
    let ghost last = if network_stats@.contains_key(name@) {
        Some(network_stats@[name@])
    } else {
        None
    };
    let mut other: Vec<(String, I3Value)> = Vec::new();
    push_family_fields(&mut other, "ipv4_", &interface.ipv4);
    push_family_fields(&mut other, "ipv6_", &interface.ipv6);
    push_family_fields(&mut other, "mac_", &interface.mac);
    let ghost fams = fields_view(other@);
    match stats {
        Some(s) => {
            match network_stats.get(name) {
                Some(l) => {
                    let rx = u64_to_string(s.0 - l.0);
                    let tx = u64_to_string(s.1 - l.1);
                    other.push((owned("rx_per_sec"), I3Value::Json(rx)));
                    other.push((owned("tx_per_sec"), I3Value::Json(tx)));
                },
                None => {},
            }
            network_stats.insert(owned(name), s);
        },
        None => {},
    }
    assert(fields_view(other@) =~= fams + rate_fields(stats, last));
    let mut full_text = owned(name);
    push_str(&mut full_text, ": ");
    match first_up_in(&interface.ipv4) {
        Some(a) => push_str(&mut full_text, a.as_str()),
        None => match first_up_in(&interface.ipv6) {
            Some(a) => push_str(&mut full_text, a.as_str()),
            None => push_str(&mut full_text, "down"),
        },
    }
    let mut r: Vec<Block> = Vec::new();
    r.push(Block { full_text, name: Some(owned("net")), instance: Some(owned(name)), other });
    r
}

/// `s` right-aligned in `width` characters (`{: >width}`): spaces before it
/// when it is shorter.
pub open spec fn right_aligned(s: Seq<char>, width: nat) -> Seq<char> {
    if s.len() < width {
        repeat(' ', (width - s.len()) as nat) + s
    } else {
        s
    }
}

fn push_right_aligned(out: &mut String, s: &str, width: usize)
    ensures
        final(out)@ == old(out)@ + right_aligned(s@, width as nat),
{
    let v = chars_of(s);
    let n = v.len();
    if n < width {
        let mut i: usize = 0;
        while i < width - n
            invariant
                n < width,
                i <= width - n,
                out@ == old(out)@ + repeat(' ', i as nat),
            decreases width - n - i,
        {
            push_char(out, ' ');
            assert(repeat(' ', (i + 1) as nat) =~= repeat(' ', i as nat).push(' '));
            i += 1;
        }
    }
    push_str(out, s);
    assert(out@ =~= old(out)@ + right_aligned(s@, width as nat));
}

/// The share of memory in use, in percent rounded down.
pub open spec fn used_percent(total: u64, free: u64) -> nat {
    ((total - free) * 100 / (total as int)) as nat
}

/// The memory block: the share of memory in use in percent (rounded down),
/// the bytes in use, free and in all as fields, and the total as
/// `total_text` writes it.
pub fn memory(total: u64, free: u64, total_text: &str) -> (r: Vec<Block>)
    requires
        0 < total,
        free <= total,
        (total - free) * 100 <= u64::MAX,
    ensures
        r@.len() == 1,
        r@[0].name matches Some(n) && n@ == "memory"@,
        r@[0].instance is None,
        r@[0].full_text@ == "mem:"@ + right_aligned(decimal(used_percent(total, free)), 3) + "% "@
            + total_text@,
        fields_view(r@[0].other@) == seq![
            ("percent"@, I3ValueView::Json(decimal(used_percent(total, free)))),
            ("used"@, I3ValueView::Json(decimal((total - free) as nat))),
            ("free"@, I3ValueView::Json(decimal(free as nat))),
            ("total"@, I3ValueView::Json(decimal(total as nat))),
        ],
{
    let used = total - free;
    let percent = used * 100 / total;
    let percent_text = u64_to_string(percent);
    let mut other: Vec<(String, I3Value)> = Vec::new();
    other.push((owned("percent"), I3Value::Json(u64_to_string(percent))));
    other.push((owned("used"), I3Value::Json(u64_to_string(used))));
    other.push((owned("free"), I3Value::Json(u64_to_string(free))));
    other.push((owned("total"), I3Value::Json(u64_to_string(total))));
    let mut full_text = owned("mem:");
    push_right_aligned(&mut full_text, percent_text.as_str(), 3);
    push_str(&mut full_text, "% ");
    push_str(&mut full_text, total_text);
    assert(fields_view(other@) =~= seq![
        ("percent"@, I3ValueView::Json(decimal(used_percent(total, free)))),
        ("used"@, I3ValueView::Json(decimal((total - free) as nat))),
        ("free"@, I3ValueView::Json(decimal(free as nat))),
        ("total"@, I3ValueView::Json(decimal(total as nat))),
    ]);
    let mut r: Vec<Block> = Vec::new();
    r.push(Block { full_text, name: Some(owned("memory")), instance: None, other });
    r
}

/// The CPU block: the share of time the processors were busy in percent,
/// and their temperature in degrees Celsius when it is known.
pub fn cpu(percent: u16, temp_c: Option<u16>) -> (r: Vec<Block>)
    ensures
        r@.len() == 1,
        r@[0].name matches Some(n) && n@ == "cpu"@,
        r@[0].instance is None,
        r@[0].full_text@ == "cpu:"@ + right_aligned(decimal(percent as nat), 3) + "%"@,
        fields_view(r@[0].other@) == seq![("percent"@, I3ValueView::Json(decimal(percent as nat)))] + match temp_c {
            Some(t) => seq![("temp_c"@, I3ValueView::Json(decimal(t as nat)))],
            None => Seq::empty(),
        },
{
    let percent_text = u64_to_string(percent as u64);
    let mut other: Vec<(String, I3Value)> = Vec::new();
    other.push((owned("percent"), I3Value::Json(u64_to_string(percent as u64))));
    match temp_c {
        Some(t) => other.push((owned("temp_c"), I3Value::Json(u64_to_string(t as u64)))),
        None => {},
    }
    assert(fields_view(other@) =~= seq![("percent"@, I3ValueView::Json(decimal(percent as nat)))] + match temp_c {
        Some(t) => seq![("temp_c"@, I3ValueView::Json(decimal(t as nat)))],
        None => Seq::empty(),
    });
    let mut full_text = owned("cpu:");
    push_right_aligned(&mut full_text, percent_text.as_str(), 3);
    push_str(&mut full_text, "%");
    let mut r: Vec<Block> = Vec::new();
    r.push(Block { full_text, name: Some(owned("cpu")), instance: None, other });
    r
}

} // verus!
