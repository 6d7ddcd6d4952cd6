//! Local addresses for direct-IP access, the most likely reachable first.
//!
//! The person being helped reads an address out to the supporter. A machine
//! with a hypervisor or a VPN has addresses that exist on a virtual bridge
//! only, so the order matters: the address of the default route comes first,
//! then private addresses, then the rest.

use crate::text::{decimal, decimal_string, is_digit, lemma_decimal, lemma_first_index_is};
use vstd::prelude::*;
use vstd::string::StringExecFns;

verus! {

/// An IPv4 address, as its four octets.
#[derive(PartialEq, Eq, Structural, Clone, Copy)]
pub struct Ipv4 {
    pub a: u8,
    pub b: u8,
    pub c: u8,
    pub d: u8,
}

/// An address of an interface. Of an IPv6 address nothing is used.
#[derive(PartialEq, Eq, Structural, Clone, Copy)]
pub enum IpAddr {
    V4(Ipv4),
    V6,
}

/// Whether an address can be dialled at all: it is not a loopback, unspecified,
/// link-local or broadcast address.
pub open spec fn usable(ip: Ipv4) -> bool {
    &&& ip.a != 127
    &&& !(ip.a == 0 && ip.b == 0 && ip.c == 0 && ip.d == 0)
    &&& !(ip.a == 169 && ip.b == 254)
    &&& !(ip.a == 255 && ip.b == 255 && ip.c == 255 && ip.d == 255)
}

/// Whether an address is in one of the private ranges of RFC 1918.
pub open spec fn private(ip: Ipv4) -> bool {
    ||| ip.a == 10
    ||| ip.a == 172 && 16 <= ip.b <= 31
    ||| ip.a == 192 && ip.b == 168
}

/// An address in dotted decimal notation.
pub open spec fn dotted(ip: Ipv4) -> Seq<char> {
    decimal(ip.a as nat) + "."@ + decimal(ip.b as nat) + "."@ + decimal(ip.c as nat) + "."@
        + decimal(ip.d as nat)
}

/// The usable IPv4 addresses among `found` other than `primary`, each once, in
/// the order in which they are first found.
pub open spec fn others_of(found: Seq<IpAddr>, primary: Option<Ipv4>) -> Seq<Ipv4>
    decreases found.len(),
{
    if found.len() == 0 {
        Seq::empty()
    } else {
        let before = others_of(found.drop_last(), primary);
        match found.last() {
            IpAddr::V4(ip) => if usable(ip) && primary != Some(ip) && !before.contains(ip) {
                before.push(ip)
            } else {
                before
            },
            IpAddr::V6 => before,
        }
    }
}

/// The addresses that are private, or those that are not, in their order.
pub open spec fn pick(ips: Seq<Ipv4>, want_private: bool) -> Seq<Ipv4>
    decreases ips.len(),
{
    if ips.len() == 0 {
        Seq::empty()
    } else {
        let before = pick(ips.drop_last(), want_private);
        if private(ips.last()) == want_private {
            before.push(ips.last())
        } else {
            before
        }
    }
}

/// All local addresses: the primary one, then private ones, then the rest.
pub open spec fn ranked(primary: Option<Ipv4>, found: Seq<IpAddr>) -> Seq<Ipv4> {
    let others = others_of(found, primary);
    let first = match primary {
        Some(ip) => seq![ip],
        None => Seq::empty(),
    };
    first + pick(others, true) + pick(others, false)
}

/// Whether an address can be dialled at all.
pub fn is_usable(ip: Ipv4) -> (r: bool)
    ensures
        r == usable(ip),
{
    ip.a != 127 && !(ip.a == 0 && ip.b == 0 && ip.c == 0 && ip.d == 0) && !(ip.a == 169 && ip.b
        == 254) && !(ip.a == 255 && ip.b == 255 && ip.c == 255 && ip.d == 255)
}

/// Whether an address is in one of the private ranges of RFC 1918.
pub fn is_rfc1918(ip: Ipv4) -> (r: bool)
    ensures
        r == private(ip),
{
    ip.a == 10 || (ip.a == 172 && 16 <= ip.b && ip.b <= 31) || (ip.a == 192 && ip.b == 168)
}

/// The primary address, given the source address that the system would use for
/// outbound traffic, if that is known: it must be a usable IPv4 address.
pub fn primary_ip(source: Option<IpAddr>) -> (r: Option<Ipv4>)
    ensures
        r == match source {
            Some(IpAddr::V4(ip)) => if usable(ip) {
                Some(ip)
            } else {
                None
            },
            _ => None,
        },
{
    match source {
        Some(IpAddr::V4(ip)) => if is_usable(ip) {
            Some(ip)
        } else {
            None
        },
        _ => None,
    }
}

/// An address in dotted decimal notation.
pub fn ip_text(ip: Ipv4) -> (r: String)
    ensures
        r@ == dotted(ip),
{
    let mut out: String = decimal_string(ip.a as u64);
    out.append(".");
    out.append(&decimal_string(ip.b as u64));
    out.append(".");
    out.append(&decimal_string(ip.c as u64));
    out.append(".");
    out.append(&decimal_string(ip.d as u64));
    out
}

fn contains(ips: &Vec<Ipv4>, ip: Ipv4) -> (r: bool)
    ensures
        r == ips@.contains(ip),
{
    for i in 0..ips.len()
        invariant
            forall|j: int| 0 <= j < i ==> ips@[j] != ip,
    {
        if ips[i] == ip {
            return true;
        }
    }
    false
}

/// Every usable IPv4 address of the machine in dotted notation, each once: the
/// primary address first, then private addresses, then the rest, each group in
/// the order of the interfaces.
pub fn local_ips(primary: Option<Ipv4>, found: &[IpAddr]) -> (r: Vec<String>)
    ensures
        r@.len() == ranked(primary, found@).len(),
        forall|i: int| 0 <= i < r@.len() ==> (#[trigger] r@[i])@ == dotted(ranked(primary, found@)[i]),
{
    let mut others: Vec<Ipv4> = Vec::new();
    for i in 0..found.len()
        invariant
            others@ == others_of(found@.take(i as int), primary),
    {
        assert(found@.take(i + 1).drop_last() == found@.take(i as int));
        assert(found@.take(i + 1).last() == found@[i as int]);
        if let IpAddr::V4(ip) = found[i] {
            let is_primary: bool = match primary {
                Some(p) => p == ip,
                None => false,
            };
            if is_usable(ip) && !is_primary && !contains(&others, ip) {
                others.push(ip);
            }
        }
    }
    assert(found@.take(found@.len() as int) == found@);
    let mut order: Vec<Ipv4> = Vec::new();
    if let Some(p) = primary {
        order.push(p);
    }
    let ghost first = order@;
    for i in 0..others.len()
        invariant
            order@ == first + pick(others@.take(i as int), true),
    {
        assert(others@.take(i + 1).drop_last() == others@.take(i as int));
        assert(others@.take(i + 1).last() == others@[i as int]);
        if is_rfc1918(others[i]) {
            order.push(others[i]);
        }
    }
    assert(others@.take(others@.len() as int) == others@);
    let ghost second = order@;
    for i in 0..others.len()
        invariant
            order@ == second + pick(others@.take(i as int), false),
    {
        assert(others@.take(i + 1).drop_last() == others@.take(i as int));
        assert(others@.take(i + 1).last() == others@[i as int]);
        if !is_rfc1918(others[i]) {
            order.push(others[i]);
        }
    }
    assert(order@ == ranked(primary, found@));
    let mut out: Vec<String> = Vec::new();
    for i in 0..order.len()
        invariant
            out@.len() == i,
            forall|j: int| 0 <= j < i ==> (#[trigger] out@[j])@ == dotted(order@[j]),
    {
        out.push(ip_text(order[i]));
    }
    out
}

/// What `pick` keeps: the addresses of the wanted kind, each as often as before.
proof fn lemma_pick(ips: Seq<Ipv4>, want_private: bool)
    requires
        ips.no_duplicates(),
    ensures
        pick(ips, want_private).no_duplicates(),
        forall|ip: Ipv4| #[trigger]
            pick(ips, want_private).contains(ip) <==> ips.contains(ip) && private(ip)
                == want_private,
    decreases ips.len(),
{
    if ips.len() > 0 {
        let rest = ips.drop_last();
        let last = ips.last();
        assert(rest.no_duplicates());
        lemma_pick(rest, want_private);
        assert(!rest.contains(last));
        let before = pick(rest, want_private);
        assert(ips == rest.push(last));
        assert forall|ip: Ipv4| #[trigger]
            pick(ips, want_private).contains(ip) <==> ips.contains(ip) && private(ip)
                == want_private by {
            assert(rest.push(last).contains(ip) <==> rest.contains(ip) || ip == last) by {
                lemma_contains_push(rest, last, ip);
            }
            lemma_contains_push(before, last, ip);
        }
        if private(last) == want_private {
            assert(!before.contains(last));
            lemma_push_distinct(before, last);
        }
    }
}

proof fn lemma_contains_push(s: Seq<Ipv4>, x: Ipv4, y: Ipv4)
    ensures
        s.push(x).contains(y) <==> s.contains(y) || x == y,
{
    if s.contains(y) {
        let i = choose|i: int| 0 <= i < s.len() && s[i] == y;
        assert(s.push(x)[i] == y);
    }
    if x == y {
        assert(s.push(x)[s.len() as int] == y);
    }
    if s.push(x).contains(y) {
        let i = choose|i: int| 0 <= i < s.push(x).len() && s.push(x)[i] == y;
        if i < s.len() {
            assert(s[i] == y);
        }
    }
}

proof fn lemma_push_distinct(s: Seq<Ipv4>, x: Ipv4)
    requires
        s.no_duplicates(),
        !s.contains(x),
    ensures
        s.push(x).no_duplicates(),
{
    let t = s.push(x);
    assert forall|i: int, j: int| 0 <= i < t.len() && 0 <= j < t.len() && i != j implies t[i]
        != t[j] by {
        if i == s.len() {
            assert(s[j] != x);
        } else if j == s.len() {
            assert(s[i] != x);
        }
    }
}

/// What `others_of` keeps: the usable addresses other than the primary one,
/// each once.
proof fn lemma_others(found: Seq<IpAddr>, primary: Option<Ipv4>)
    ensures
        others_of(found, primary).no_duplicates(),
        forall|ip: Ipv4| #[trigger]
            others_of(found, primary).contains(ip) <==> found.contains(IpAddr::V4(ip)) && usable(ip)
                && primary != Some(ip),
    decreases found.len(),
{
    if found.len() > 0 {
        let rest = found.drop_last();
        lemma_others(rest, primary);
        let before = others_of(rest, primary);
        assert(found == rest.push(found.last()));
        assert forall|ip: Ipv4| #[trigger]
            others_of(found, primary).contains(ip) <==> found.contains(IpAddr::V4(ip)) && usable(ip)
                && primary != Some(ip) by {
            let x = IpAddr::V4(ip);
            assert(found.contains(x) <==> rest.contains(x) || found.last() == x) by {
                if rest.contains(x) {
                    let i = choose|i: int| 0 <= i < rest.len() && rest[i] == x;
                    assert(found[i] == x);
                }
                if found.contains(x) {
                    let i = choose|i: int| 0 <= i < found.len() && found[i] == x;
                    if i < rest.len() {
                        assert(rest[i] == x);
                    }
                }
                if found.last() == x {
                    assert(found[found.len() - 1] == x);
                }
            }
            if let IpAddr::V4(last) = found.last() {
                lemma_contains_push(before, last, ip);
            }
        }
        if let IpAddr::V4(last) = found.last() {
            if usable(last) && primary != Some(last) && !before.contains(last) {
                lemma_push_distinct(before, last);
            }
        }
    }
}

/// The local addresses are exactly the usable addresses of the machine, each
/// once; the primary one is first, and of the others all private ones come
/// before all that are not.
pub proof fn law_local_addresses(primary: Option<Ipv4>, found: Seq<IpAddr>)
    requires
        primary matches Some(ip) ==> usable(ip),
    ensures
        ranked(primary, found).no_duplicates(),
        forall|ip: Ipv4| #[trigger]
            ranked(primary, found).contains(ip) <==> primary == Some(ip) || (usable(ip)
                && found.contains(IpAddr::V4(ip))),
        primary matches Some(ip) ==> ranked(primary, found)[0] == ip,
        forall|i: int, j: int|
            0 <= i < j < ranked(primary, found).len() && (primary is None || i > 0) && private(
                #[trigger] ranked(primary, found)[j],
            ) ==> private(#[trigger] ranked(primary, found)[i]),
{
    lemma_others(found, primary);
    let others = others_of(found, primary);
    lemma_pick(others, true);
    lemma_pick(others, false);
    let first = match primary {
        Some(ip) => seq![ip],
        None => Seq::<Ipv4>::empty(),
    };
    let near = pick(others, true);
    let far = pick(others, false);
    let all = ranked(primary, found);
    assert forall|i: int| 0 <= i < near.len() implies private(#[trigger] near[i]) && others.contains(
        near[i],
    ) by {
        assert(near.contains(near[i]));
    }
    assert forall|i: int| 0 <= i < far.len() implies !private(#[trigger] far[i]) && others.contains(
        far[i],
    ) by {
        assert(far.contains(far[i]));
    }
    let n = first.len() as int;
    let m = near.len() as int;
    assert forall|k: int| 0 <= k < all.len() implies #[trigger] all[k] == (if k < n {
        first[k]
    } else if k < n + m {
        near[k - n]
    } else {
        far[k - n - m]
    }) by {}
    assert forall|i: int, j: int| 0 <= i < all.len() && 0 <= j < all.len() && i != j implies all[i]
        != all[j] by {
        if n <= i < n + m {
            assert(private(near[i - n]) && others.contains(near[i - n]));
        } else if n + m <= i {
            assert(!private(far[i - n - m]) && others.contains(far[i - n - m]));
        }
        if n <= j < n + m {
            assert(private(near[j - n]) && others.contains(near[j - n]));
        } else if n + m <= j {
            assert(!private(far[j - n - m]) && others.contains(far[j - n - m]));
        }
    }
    assert forall|ip: Ipv4| #[trigger]
        all.contains(ip) <==> primary == Some(ip) || (usable(ip) && found.contains(
            IpAddr::V4(ip),
        )) by {
        if all.contains(ip) {
            let k = choose|k: int| 0 <= k < all.len() && all[k] == ip;
            if k >= n {
                if k < n + m {
                    assert(others.contains(near[k - n]));
                } else {
                    assert(others.contains(far[k - n - m]));
                }
            }
        }
        if primary == Some(ip) {
            assert(all[0] == ip);
        } else if usable(ip) && found.contains(IpAddr::V4(ip)) {
            assert(others.contains(ip));
            if private(ip) {
                assert(near.contains(ip));
                let k = choose|k: int| 0 <= k < near.len() && near[k] == ip;
                assert(all[n + k] == ip);
            } else {
                assert(far.contains(ip));
                let k = choose|k: int| 0 <= k < far.len() && far[k] == ip;
                assert(all[n + m + k] == ip);
            }
        }
    }
}

/// A number and what follows the dot behind it can be read off again.
proof fn lemma_before_dot(x: nat, s: Seq<char>, y: nat, t: Seq<char>)
    requires
        decimal(x) + "."@ + s == decimal(y) + "."@ + t,
    ensures
        x == y,
        s == t,
{
    reveal_strlit(".");
    lemma_decimal(x);
    lemma_decimal(y);
    let u = decimal(x) + "."@ + s;
    let v = decimal(y) + "."@ + t;
    let n = decimal(x).len() as int;
    let m = decimal(y).len() as int;
    assert forall|j: int| 0 <= j < n implies u[j] != '.' by {
        assert(is_digit(decimal(x)[j]));
    }
    assert forall|j: int| 0 <= j < m implies v[j] != '.' by {
        assert(is_digit(decimal(y)[j]));
    }
    assert("."@.len() == 1 && "."@[0] == '.');
    assert(u[n] == '.');
    assert(v[m] == '.');
    lemma_first_index_is(u, '.', n);
    lemma_first_index_is(v, '.', m);
    assert(u.take(n) == decimal(x));
    assert(v.take(m) == decimal(y));
    assert(u.skip(n + 1) == s);
    assert(v.skip(m + 1) == t);
}

/// Text joined by dots, grouped from the right.
proof fn lemma_regroup(a: Seq<char>, b: Seq<char>, c: Seq<char>, d: Seq<char>, dot: Seq<char>)
    ensures
        a + dot + b + dot + c + dot + d == a + dot + (b + dot + (c + dot + d)),
{
}

/// Different addresses are written differently.
pub proof fn law_dotted_is_unambiguous(x: Ipv4, y: Ipv4)
    requires
        dotted(x) == dotted(y),
    ensures
        x == y,
{
    let x3 = decimal(x.d as nat);
    let x2 = decimal(x.c as nat) + "."@ + x3;
    let x1 = decimal(x.b as nat) + "."@ + x2;
    let y3 = decimal(y.d as nat);
    let y2 = decimal(y.c as nat) + "."@ + y3;
    let y1 = decimal(y.b as nat) + "."@ + y2;
    lemma_regroup(
        decimal(x.a as nat),
        decimal(x.b as nat),
        decimal(x.c as nat),
        x3,
        "."@,
    );
    lemma_regroup(
        decimal(y.a as nat),
        decimal(y.b as nat),
        decimal(y.c as nat),
        y3,
        "."@,
    );
    lemma_before_dot(x.a as nat, x1, y.a as nat, y1);
    lemma_before_dot(x.b as nat, x2, y.b as nat, y2);
    lemma_before_dot(x.c as nat, x3, y.c as nat, y3);
    lemma_decimal(x.d as nat);
    lemma_decimal(y.d as nat);
}

/// The addresses that cannot be dialled, as ranges of 32-bit numbers: 127.0.0.0/8,
/// 0.0.0.0, 169.254.0.0/16 and 255.255.255.255.
pub proof fn law_usable_addresses(ip: Ipv4)
    ensures
        ({
            let n = ip.a * 0x100_0000 + ip.b * 0x1_0000 + ip.c * 0x100 + ip.d;
            usable(ip) <==> {
                &&& !(0x7f00_0000 <= n <= 0x7fff_ffff)
                &&& n != 0
                &&& !(0xa9fe_0000 <= n <= 0xa9fe_ffff)
                &&& n != 0xffff_ffff
            }
        }),
{
}

/// The private addresses, as ranges of 32-bit numbers: 10.0.0.0/8, 172.16.0.0/12
/// and 192.168.0.0/16.
pub proof fn law_private_addresses(ip: Ipv4)
    ensures
        ({
            let n = ip.a * 0x100_0000 + ip.b * 0x1_0000 + ip.c * 0x100 + ip.d;
            private(ip) <==> {
                ||| 0x0a00_0000 <= n <= 0x0aff_ffff
                ||| 0xac10_0000 <= n <= 0xac1f_ffff
                ||| 0xc0a8_0000 <= n <= 0xc0a8_ffff
            }
        }),
{
}

/// An address is written as its four octets in decimal, with dots between them.
pub proof fn law_dotted_notation(ip: Ipv4)
    ensures
        dotted(ip) == decimal(ip.a as nat) + seq!['.'] + decimal(ip.b as nat) + seq!['.'] + decimal(
            ip.c as nat,
        ) + seq!['.'] + decimal(ip.d as nat),
{
    reveal_strlit(".");
    assert("."@ == seq!['.']);
}

/// Whether one address is found before another: some place of the first is before
/// all places of the second.
pub open spec fn found_before(found: Seq<IpAddr>, x: Ipv4, y: Ipv4) -> bool {
    exists|p: int|
        {
            &&& 0 <= p < found.len()
            &&& #[trigger] found[p] == IpAddr::V4(x)
            &&& forall|q: int|
                0 <= q < found.len() && #[trigger] found[q] == IpAddr::V4(y) ==> p < q
        }
}

proof fn lemma_others_in_order(found: Seq<IpAddr>, primary: Option<Ipv4>)
    ensures
        forall|i: int, j: int|
            0 <= i < j < others_of(found, primary).len() ==> found_before(
                found,
                #[trigger] others_of(found, primary)[i],
                #[trigger] others_of(found, primary)[j],
            ),
    decreases found.len(),
{
    if found.len() > 0 {
        let rest = found.drop_last();
        let n = found.len() - 1;
        lemma_others_in_order(rest, primary);
        lemma_others(rest, primary);
        let before = others_of(rest, primary);
        let all = others_of(found, primary);
        assert forall|i: int, j: int| 0 <= i < j < all.len() implies found_before(
            found,
            #[trigger] all[i],
            #[trigger] all[j],
        ) by {
            let x = all[i];
            let y = all[j];
            if j < before.len() {
                assert(x == before[i] && y == before[j]);
                assert(found_before(rest, before[i], before[j]));
                let p = choose|p: int|
                    {
                        &&& 0 <= p < rest.len()
                        &&& #[trigger] rest[p] == IpAddr::V4(x)
                        &&& forall|q: int|
                            0 <= q < rest.len() && #[trigger] rest[q] == IpAddr::V4(y) ==> p < q
                    };
                assert(found[p] == IpAddr::V4(x));
                assert forall|q: int|
                    0 <= q < found.len() && #[trigger] found[q] == IpAddr::V4(y) implies p < q by {
                    if q < n {
                        assert(rest[q] == found[q]);
                    }
                }
            } else {
                assert(x == before[i]);
                assert(before.contains(x));
                assert(rest.contains(IpAddr::V4(x)));
                let p = choose|p: int| 0 <= p < rest.len() && rest[p] == IpAddr::V4(x);
                assert(found[p] == IpAddr::V4(x));
                assert(!before.contains(y));
                assert(!rest.contains(IpAddr::V4(y)));
                assert forall|q: int|
                    0 <= q < found.len() && #[trigger] found[q] == IpAddr::V4(y) implies p < q by {
                    if q < n {
                        assert(rest[q] == found[q]);
                    }
                }
            }
        }
    }
}

proof fn lemma_pick_in_order(ips: Seq<Ipv4>, want_private: bool, i: int, j: int) -> (r: (int, int))
    requires
        0 <= i < j < pick(ips, want_private).len(),
    ensures
        0 <= r.0 < r.1 < ips.len(),
        ips[r.0] == pick(ips, want_private)[i],
        ips[r.1] == pick(ips, want_private)[j],
    decreases ips.len(),
{
    let rest = ips.drop_last();
    let before = pick(rest, want_private);
    if j < before.len() {
        lemma_pick_in_order(rest, want_private, i, j)
    } else {
        let k = lemma_pick_place(rest, want_private, i);
        (k, ips.len() - 1)
    }
}

proof fn lemma_pick_place(ips: Seq<Ipv4>, want_private: bool, i: int) -> (k: int)
    requires
        0 <= i < pick(ips, want_private).len(),
    ensures
        0 <= k < ips.len(),
        ips[k] == pick(ips, want_private)[i],
    decreases ips.len(),
{
    let rest = ips.drop_last();
    if i < pick(rest, want_private).len() {
        lemma_pick_place(rest, want_private, i)
    } else {
        ips.len() - 1
    }
}

/// Private addresses keep the order of the interfaces among themselves, and so do
/// the others; the primary address is out of that order.
pub proof fn law_interface_order_is_kept(
    primary: Option<Ipv4>,
    found: Seq<IpAddr>,
    i: int,
    j: int,
)
    requires
        0 <= i < j < ranked(primary, found).len(),
        primary is None || i > 0,
        private(ranked(primary, found)[i]) == private(ranked(primary, found)[j]),
    ensures
        found_before(found, ranked(primary, found)[i], ranked(primary, found)[j]),
{
    let others = others_of(found, primary);
    lemma_others(found, primary);
    lemma_pick(others, true);
    lemma_pick(others, false);
    lemma_others_in_order(found, primary);
    let near = pick(others, true);
    let far = pick(others, false);
    let all = ranked(primary, found);
    let n: int = if primary is Some {
        1
    } else {
        0
    };
    let m = near.len() as int;
    if j < n + m {
        assert(all[i] == near[i - n] && all[j] == near[j - n]);
        let (a, b) = lemma_pick_in_order(others, true, i - n, j - n);
        assert(found_before(found, others[a], others[b]));
    } else if i >= n + m {
        assert(all[i] == far[i - n - m] && all[j] == far[j - n - m]);
        let (a, b) = lemma_pick_in_order(others, false, i - n - m, j - n - m);
        assert(found_before(found, others[a], others[b]));
    } else {
        assert(near.contains(near[i - n]));
        assert(far.contains(far[j - n - m]));
        assert(all[i] == near[i - n] && all[j] == far[j - n - m]);
    }
}

} // verus!
