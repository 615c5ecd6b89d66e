//! IP address literals: the textual forms that `std`'s `IpAddr` parser accepts, and
//! whether an address is routable on the public Internet.
use vstd::prelude::*;
use crate::text::{is_radix_digit, parse_bounded, parse_unsigned, radix_val, slice_of, unsigned_body};

verus! {

// ---------------------------------------------------------------------------
// Grammar
// ---------------------------------------------------------------------------

/// The number of consecutive digits (of the given radix) starting at `pos`.
pub open spec fn digit_run(s: Seq<char>, pos: int, hex: bool) -> int
    decreases s.len() - pos,
{
    if 0 <= pos < s.len() && is_radix_digit(s[pos], hex) {
        1 + digit_run(s, pos + 1, hex)
    } else {
        0
    }
}

/// A number of at most `max_digits` digits and value at most `max`, read greedily at `pos`;
/// unless `zero_prefix_ok`, a number of several digits may not start with `0`.
/// Gives the value and the position after it.
pub open spec fn read_number(
    s: Seq<char>,
    pos: int,
    hex: bool,
    max_digits: int,
    zero_prefix_ok: bool,
    max: nat,
) -> Option<(u64, int)> {
    let n = digit_run(s, pos, hex);
    if n == 0 || n > max_digits {
        None
    } else {
        let v = radix_val(s.subrange(pos, pos + n), hex);
        if v > max || (!zero_prefix_ok && s[pos] == '0' && n > 1) {
            None
        } else {
            Some((v as u64, pos + n))
        }
    }
}

/// A decimal octet of an IPv4 address.
pub open spec fn read_octet(s: Seq<char>, pos: int) -> Option<(u64, int)> {
    read_number(s, pos, false, 3, false, 255)
}

/// A hexadecimal group of an IPv6 address.
pub open spec fn read_hex_group(s: Seq<char>, pos: int) -> Option<(u64, int)> {
    read_number(s, pos, true, 4, true, 65535)
}

/// The position after the character `c` at `pos`.
pub open spec fn read_sep(s: Seq<char>, pos: int, c: char) -> Option<int> {
    if 0 <= pos < s.len() && s[pos] == c {
        Some(pos + 1)
    } else {
        None
    }
}

/// A `.` followed by an octet.
pub open spec fn read_dot_octet(s: Seq<char>, pos: int) -> Option<(u64, int)> {
    match read_sep(s, pos, '.') {
        Some(q) => read_octet(s, q),
        None => None,
    }
}

/// A dotted-quad IPv4 address at `pos`: its four octets and the position after it.
pub open spec fn read_ipv4(s: Seq<char>, pos: int) -> Option<(Seq<u64>, int)> {
    match read_octet(s, pos) {
        Some((a, p1)) => match read_dot_octet(s, p1) {
            Some((b, p2)) => match read_dot_octet(s, p2) {
                Some((c, p3)) => match read_dot_octet(s, p3) {
                    Some((d, p4)) => Some((seq![a, b, c, d], p4)),
                    None => None,
                },
                None => None,
            },
            None => None,
        },
        None => None,
    }
}

/// Where group `i` of an IPv6 address starts: at `pos` for the first group, after a `:`
/// for the others.
pub open spec fn group_start(s: Seq<char>, pos: int, i: nat) -> Option<int> {
    if i == 0 {
        Some(pos)
    } else {
        read_sep(s, pos, ':')
    }
}

/// Colon-separated IPv6 groups `i..limit` read at `pos`, where an embedded IPv4 address may
/// stand for two groups (and ends the run). Gives the groups, whether an IPv4 address ended
/// them, and the position after them.
pub open spec fn read_groups(s: Seq<char>, pos: int, i: nat, limit: nat) -> (Seq<u64>, bool, int)
    decreases limit - i,
{
    if i >= limit {
        (seq![], false, pos)
    } else {
        let start = group_start(s, pos, i);
        let v4 = if i + 1 < limit {
            match start {
                Some(p) => read_ipv4(s, p),
                None => None,
            }
        } else {
            None
        };
        match v4 {
            Some((o, e)) => (seq![(o[0] * 256 + o[1]) as u64, (o[2] * 256 + o[3]) as u64], true, e),
            None => match start {
                Some(p) => match read_hex_group(s, p) {
                    Some((g, e)) => {
                        let r = read_groups(s, e, i + 1, limit);
                        (seq![g] + r.0, r.1, r.2)
                    },
                    None => (seq![], false, pos),
                },
                None => (seq![], false, pos),
            },
        }
    }
}

/// An IPv6 address at the start of `s`: its eight groups and the position after it.
pub open spec fn read_ipv6(s: Seq<char>) -> Option<(Seq<u64>, int)> {
    let (head, head_v4, p) = read_groups(s, 0, 0, 8);
    if head.len() == 8 {
        Some((head, p))
    } else if head_v4 || head.len() > 7 {
        None
    } else {
        match read_sep(s, p, ':') {
            Some(q) => match read_sep(s, q, ':') {
                Some(r) => {
                    let (tail, _v4, e) = read_groups(s, r, 0, (7 - head.len()) as nat);
                    let zeros = Seq::new((8 - head.len() - tail.len()) as nat, |k: int| 0u64);
                    Some((head + zeros + tail, e))
                },
                None => None,
            },
            None => None,
        }
    }
}

/// The address that `IpAddr::from_str` reads from the whole of `s`: whether it is an IPv6
/// address, and its octets (IPv4) or groups (IPv6).
pub open spec fn parse_ip(s: Seq<char>) -> Option<(bool, Seq<u64>)> {
    match read_ipv4(s, 0) {
        Some((o, e)) => if e == s.len() {
            Some((false, o))
        } else {
            None
        },
        None => match read_ipv6(s) {
            Some((g, e)) => if e == s.len() {
                Some((true, g))
            } else {
                None
            },
            None => None,
        },
    }
}

/// An IPv4 address that is none of: private, loopback, link-local, broadcast,
/// documentation, unspecified.
pub open spec fn ipv4_global(o: Seq<u64>) -> bool {
    let (a, b, c, d) = (o[0], o[1], o[2], o[3]);
    &&& !(a == 10 || (a == 172 && 16 <= b <= 31) || (a == 192 && b == 168))
    &&& a != 127
    &&& !(a == 169 && b == 254)
    &&& !(a == 255 && b == 255 && c == 255 && d == 255)
    &&& !((a == 192 && b == 0 && c == 2) || (a == 198 && b == 51 && c == 100) || (a == 203 && b
        == 0 && c == 113))
    &&& !(a == 0 && b == 0 && c == 0 && d == 0)
}

/// An IPv6 address routable on the Internet: none of the unspecified address (`::`), the
/// loopback address (`::1`), link-local (`fe80::/10`), unique-local (`fc00::/7`), multicast
/// (`ff00::/8`) and documentation (`2001:db8::/32`) addresses.
pub open spec fn ipv6_global(g: Seq<u64>) -> bool {
    &&& !(forall|k: int| 0 <= k < 8 ==> g[k] == 0)
    &&& !((forall|k: int| 0 <= k < 7 ==> g[k] == 0) && g[7] == 1)
    &&& !(0xfe80 <= g[0] <= 0xfebf)
    &&& !(0xfc00 <= g[0] <= 0xfdff)
    &&& !(0xff00 <= g[0] <= 0xffff)
    &&& !(g[0] == 0x2001 && g[1] == 0x0db8)
}

/// The text is an IP address routable on the public Internet.
pub open spec fn text_is_global(s: Seq<char>) -> bool {
    match parse_ip(s) {
        Some((false, o)) => ipv4_global(o),
        Some((true, g)) => ipv6_global(g),
        None => false,
    }
}

/// The text is an IP address literal of either family.
pub open spec fn text_is_ip(s: Seq<char>) -> bool {
    parse_ip(s) is Some
}

// ---------------------------------------------------------------------------
// Reading
// ---------------------------------------------------------------------------

proof fn lemma_digit_run_bound(s: Seq<char>, pos: int, hex: bool)
    requires
        0 <= pos <= s.len(),
    ensures
        0 <= digit_run(s, pos, hex) <= s.len() - pos,
        forall|j: int| pos <= j < pos + digit_run(s, pos, hex) ==> is_radix_digit(#[trigger] s[j], hex),
        pos + digit_run(s, pos, hex) < s.len() ==> !is_radix_digit(s[pos + digit_run(s, pos, hex)], hex),
    decreases s.len() - pos,
{
    if pos < s.len() && is_radix_digit(s[pos], hex) {
        lemma_digit_run_bound(s, pos + 1, hex);
    }
}

fn is_radix_char(c: char, hex: bool) -> (r: bool)
    ensures
        r == is_radix_digit(c, hex),
{
    if hex {
        ('0' <= c && c <= '9') || ('a' <= c && c <= 'f') || ('A' <= c && c <= 'F')
    } else {
        '0' <= c && c <= '9'
    }
}

/// Executable [`read_number`].
fn read_number_at(
    s: &Vec<char>,
    pos: usize,
    hex: bool,
    max_digits: usize,
    zero_prefix_ok: bool,
    max: u64,
) -> (r: Option<(u64, usize)>)
    requires
        pos <= s.len(),
        max_digits <= 4,
    ensures
        r matches Some(p) ==> read_number(s@, pos as int, hex, max_digits as int, zero_prefix_ok, max as nat) == Some((p.0, p.1 as int)),
        r is None ==> read_number(s@, pos as int, hex, max_digits as int, zero_prefix_ok, max as nat) is None,
{
    let mut n: usize = 0;
    proof {
        lemma_digit_run_bound(s@, pos as int, hex);
    }
    while pos + n < s.len() && is_radix_char(s[pos + n], hex)
        invariant
            pos + n <= s.len(),
            digit_run(s@, pos as int, hex) == n + digit_run(s@, pos + n, hex),
        decreases s.len() - pos - n,
    {
        n = n + 1;
    }
    assert(digit_run(s@, pos + n, hex) == 0);
    if n == 0 || n > max_digits {
        return None;
    }
    let digits = slice_of(s, pos, pos + n);
    proof {
        assert(unsigned_body(digits@) =~= digits@) by {
            assert(is_radix_digit(digits@[0], hex));
        }
        assert forall|j: int| 0 <= j < digits@.len() implies is_radix_digit(#[trigger] digits@[j], hex) by {
            assert(digits@[j] == s@[pos + j]);
        }
    }
    match parse_unsigned(&digits, hex, max) {
        Some(v) => {
            if !zero_prefix_ok && s[pos] == '0' && n > 1 {
                None
            } else {
                Some((v, pos + n))
            }
        },
        None => None,
    }
}

fn read_octet_at(s: &Vec<char>, pos: usize) -> (r: Option<(u64, usize)>)
    requires
        pos <= s.len(),
    ensures
        r matches Some(p) ==> read_octet(s@, pos as int) == Some((p.0, p.1 as int)) && p.1 <= s.len(),
        r is None ==> read_octet(s@, pos as int) is None,
{
    proof {
        lemma_digit_run_bound(s@, pos as int, false);
    }
    read_number_at(s, pos, false, 3, false, 255)
}

fn read_hex_group_at(s: &Vec<char>, pos: usize) -> (r: Option<(u64, usize)>)
    requires
        pos <= s.len(),
    ensures
        r matches Some(p) ==> read_hex_group(s@, pos as int) == Some((p.0, p.1 as int)) && p.1 <= s.len() && p.0 <= 65535,
        r is None ==> read_hex_group(s@, pos as int) is None,
{
    proof {
        lemma_digit_run_bound(s@, pos as int, true);
    }
    read_number_at(s, pos, true, 4, true, 65535)
}

fn read_sep_at(s: &Vec<char>, pos: usize, c: char) -> (r: Option<usize>)
    requires
        pos <= s.len(),
    ensures
        r matches Some(q) ==> read_sep(s@, pos as int, c) == Some(q as int) && q <= s.len(),
        r is None ==> read_sep(s@, pos as int, c) is None,
{
    if pos < s.len() && s[pos] == c {
        Some(pos + 1)
    } else {
        None
    }
}

fn read_dot_octet_at(s: &Vec<char>, pos: usize) -> (r: Option<(u64, usize)>)
    requires
        pos <= s.len(),
    ensures
        r matches Some(p) ==> read_dot_octet(s@, pos as int) == Some((p.0, p.1 as int)) && p.1 <= s.len(),
        r is None ==> read_dot_octet(s@, pos as int) is None,
{
    match read_sep_at(s, pos, '.') {
        Some(q) => read_octet_at(s, q),
        None => None,
    }
}

/// Executable [`read_ipv4`].
fn read_ipv4_at(s: &Vec<char>, pos: usize) -> (r: Option<(Vec<u64>, usize)>)
    requires
        pos <= s.len(),
    ensures
        r matches Some(p) ==> read_ipv4(s@, pos as int) == Some((p.0@, p.1 as int)) && p.1 <= s.len(),
        r is None ==> read_ipv4(s@, pos as int) is None,
{
    let (a, p1) = match read_octet_at(s, pos) {
        Some(x) => x,
        None => return None,
    };
    let (b, p2) = match read_dot_octet_at(s, p1) {
        Some(x) => x,
        None => return None,
    };
    let (c, p3) = match read_dot_octet_at(s, p2) {
        Some(x) => x,
        None => return None,
    };
    let (d, p4) = match read_dot_octet_at(s, p3) {
        Some(x) => x,
        None => return None,
    };
    let mut o: Vec<u64> = Vec::new();
    o.push(a);
    o.push(b);
    o.push(c);
    o.push(d);
    assert(o@ =~= seq![a, b, c, d]);
    Some((o, p4))
}

proof fn lemma_read_groups_len(s: Seq<char>, pos: int, i: nat, limit: nat)
    ensures
        read_groups(s, pos, i, limit).0.len() <= if i <= limit { limit - i } else { 0 },
    decreases limit - i,
{
    if i < limit {
        let start = group_start(s, pos, i);
        if let Some(p) = start {
            if let Some((g, e)) = read_hex_group(s, p) {
                lemma_read_groups_len(s, e, i + 1, limit);
            }
        }
    }
}

/// Executable [`read_groups`].
fn read_groups_at(s: &Vec<char>, pos: usize, i: usize, limit: usize) -> (r: (Vec<u64>, bool, usize))
    requires
        pos <= s.len(),
        limit <= 8,
    ensures
        read_groups(s@, pos as int, i as nat, limit as nat) == (r.0@, r.1, r.2 as int),
        r.2 <= s.len(),
    decreases limit - i,
{
    if i >= limit {
        return (Vec::new(), false, pos);
    }
    let start: Option<usize> = if i == 0 {
        Some(pos)
    } else {
        read_sep_at(s, pos, ':')
    };
    if i + 1 < limit {
        if let Some(p) = start {
            if let Some((o, e)) = read_ipv4_at(s, p) {
                let mut g: Vec<u64> = Vec::new();
                g.push(o[0] * 256 + o[1]);
                g.push(o[2] * 256 + o[3]);
                assert(g@ =~= seq![(o@[0] * 256 + o@[1]) as u64, (o@[2] * 256 + o@[3]) as u64]);
                return (g, true, e);
            }
        }
    }
    match start {
        Some(p) => match read_hex_group_at(s, p) {
            Some((g, e)) => {
                let (rest, b, e2) = read_groups_at(s, e, i + 1, limit);
                let mut out: Vec<u64> = Vec::new();
                out.push(g);
                let mut k: usize = 0;
                while k < rest.len()
                    invariant
                        k <= rest.len(),
                        out@ == seq![g] + rest@.take(k as int),
                    decreases rest.len() - k,
                {
                    out.push(rest[k]);
                    k = k + 1;
                    assert(out@ =~= seq![g] + rest@.take(k as int));
                }
                assert(rest@.take(rest.len() as int) =~= rest@);
                (out, b, e2)
            },
            None => (Vec::new(), false, pos),
        },
        None => (Vec::new(), false, pos),
    }
}

/// Executable [`read_ipv6`].
fn read_ipv6_text(s: &Vec<char>) -> (r: Option<(Vec<u64>, usize)>)
    ensures
        r matches Some(p) ==> read_ipv6(s@) == Some((p.0@, p.1 as int)),
        r is None ==> read_ipv6(s@) is None,
{
    let (head, head_v4, p) = read_groups_at(s, 0, 0, 8);
    proof {
        lemma_read_groups_len(s@, 0, 0, 8);
    }
    if head.len() == 8 {
        return Some((head, p));
    }
    if head_v4 || head.len() > 7 {
        return None;
    }
    let q = match read_sep_at(s, p, ':') {
        Some(q) => q,
        None => return None,
    };
    let r = match read_sep_at(s, q, ':') {
        Some(r) => r,
        None => return None,
    };
    let lim = 7 - head.len();
    let (tail, _v4, e) = read_groups_at(s, r, 0, lim);
    proof {
        lemma_read_groups_len(s@, r as int, 0, lim as nat);
    }
    let mut out: Vec<u64> = Vec::new();
    let mut k: usize = 0;
    while k < head.len()
        invariant
            k <= head.len(),
            out@ == head@.take(k as int),
        decreases head.len() - k,
    {
        out.push(head[k]);
        k = k + 1;
        assert(out@ =~= head@.take(k as int));
    }
    let nz = 8 - head.len() - tail.len();
    let mut z: usize = 0;
    assert(head@.take(head.len() as int) =~= head@);
    while z < nz
        invariant
            z <= nz,
            out@ == head@ + Seq::new(z as nat, |j: int| 0u64),
        decreases nz - z,
    {
        out.push(0);
        z = z + 1;
        assert(out@ =~= head@ + Seq::new(z as nat, |j: int| 0u64));
    }
    let ghost mid = out@;
    let mut t: usize = 0;
    while t < tail.len()
        invariant
            t <= tail.len(),
            out@ == mid + tail@.take(t as int),
        decreases tail.len() - t,
    {
        out.push(tail[t]);
        t = t + 1;
        assert(out@ =~= mid + tail@.take(t as int));
    }
    assert(tail@.take(tail.len() as int) =~= tail@);
    Some((out, e))
}

/// Executable [`parse_ip`]: whether the address is IPv6, and its octets or groups.
pub fn parse_ip_text(s: &Vec<char>) -> (r: Option<(bool, Vec<u64>)>)
    ensures
        r matches Some(p) ==> parse_ip(s@) == Some((p.0, p.1@)),
        r is None ==> parse_ip(s@) is None,
{
    match read_ipv4_at(s, 0) {
        Some((o, e)) => {
            if e == s.len() {
                Some((false, o))
            } else {
                None
            }
        },
        None => match read_ipv6_text(s) {
            Some((g, e)) => {
                if e == s.len() {
                    Some((true, g))
                } else {
                    None
                }
            },
            None => None,
        },
    }
}

proof fn lemma_ipv6_len(s: Seq<char>)
    ensures
        read_ipv6(s) matches Some(p) ==> p.0.len() == 8,
{
    lemma_read_groups_len(s, 0, 0, 8);
    let (head, head_v4, p) = read_groups(s, 0, 0, 8);
    if head.len() < 8 && !head_v4 {
        if let Some(q) = read_sep(s, p, ':') {
            if let Some(r) = read_sep(s, q, ':') {
                lemma_read_groups_len(s, r, 0, (7 - head.len()) as nat);
            }
        }
    }
}

/// Whether the text is an IP address routable on the public Internet.
pub fn is_global_text(s: &Vec<char>) -> (r: bool)
    ensures
        r == text_is_global(s@),
{
    proof {
        lemma_ipv6_len(s@);
    }
    match parse_ip_text(s) {
        Some((false, o)) => {
            let (a, b, c, d) = (o[0], o[1], o[2], o[3]);
            !(a == 10 || (a == 172 && 16 <= b && b <= 31) || (a == 192 && b == 168)) && a != 127
                && !(a == 169 && b == 254) && !(a == 255 && b == 255 && c == 255 && d == 255)
                && !((a == 192 && b == 0 && c == 2) || (a == 198 && b == 51 && c == 100) || (a
                == 203 && b == 0 && c == 113)) && !(a == 0 && b == 0 && c == 0 && d == 0)
        },
        Some((true, g)) => {
            let mut k: usize = 0;
            let mut zero_prefix = true;
            while k < 7
                invariant
                    g@.len() == 8,
                    k <= 7,
                    zero_prefix == (forall|j: int| 0 <= j < k ==> g@[j] == 0),
                decreases 7 - k,
            {
                if g[k] != 0 {
                    zero_prefix = false;
                }
                k = k + 1;
            }
            let unspecified = zero_prefix && g[7] == 0;
            let loopback = zero_prefix && g[7] == 1;
            proof {
                if unspecified {
                    assert(forall|j: int| 0 <= j < 8 ==> g@[j] == 0);
                }
                if !zero_prefix {
                    let j = choose|j: int| 0 <= j < 7 && g@[j] != 0;
                    assert(!(forall|j: int| 0 <= j < 8 ==> g@[j] == 0));
                }
            }
            let link_local = 0xfe80 <= g[0] && g[0] <= 0xfebf;
            let unique_local = 0xfc00 <= g[0] && g[0] <= 0xfdff;
            let multicast = 0xff00 <= g[0] && g[0] <= 0xffff;
            let documentation = g[0] == 0x2001 && g[1] == 0x0db8;
            !unspecified && !loopback && !link_local && !unique_local && !multicast
                && !documentation
        },
        None => false,
    }
}

} // verus!
