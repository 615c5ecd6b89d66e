//! Network topology: which kind of endpoint an IP address belongs to.
use vstd::prelude::*;
use crate::ipaddr::{is_global_text, parse_ip_text, text_is_global, text_is_ip};
use crate::text::{
    chars_of, eq_seq, eq_str, find_char, index_of, lines, lowercase, lowercase_chars, slice_of,
    split_lines, split_ws, starts_with, starts_with_str, string_of, tokens, views,
};

verus! {

/// Network node types for UI display.
#[derive(Debug, Clone, Copy, PartialEq, Eq, Structural, Default)]
pub enum EndpointType {
    /// The router itself.
    Router,
    /// A wired client.
    Wired,
    /// A Wi-Fi client.
    Wireless,
    /// A VPN client.
    Vpn,
    /// A remote server on the Internet.
    Remote,
    /// Could not be determined.
    #[default]
    Unknown,
}

impl EndpointType {
    /// Returns an icon for the UI.
    pub fn icon(&self) -> (r: &'static str)
        ensures
            r@ == match *self {
                EndpointType::Router => "🖧 "@,
                EndpointType::Wired => "💻"@,
                EndpointType::Wireless => "📶"@,
                EndpointType::Vpn => "🛡️"@,
                EndpointType::Remote => "🌐"@,
                EndpointType::Unknown => "❓"@,
            },
    {
        match self {
            EndpointType::Router => "🖧 ",
            EndpointType::Wired => "💻",
            EndpointType::Wireless => "📶",
            EndpointType::Vpn => "🛡️",
            EndpointType::Remote => "🌐",
            EndpointType::Unknown => "❓",
        }
    }
}

/// A sequence of (address, endpoint type) assignments.
pub type Updates = Seq<(Seq<char>, EndpointType)>;

/// The table that results from applying the assignments in order, later ones winning.
pub open spec fn map_of(es: Updates) -> Map<Seq<char>, EndpointType>
    decreases es.len(),
{
    if es.len() == 0 {
        Map::empty()
    } else {
        map_of(es.drop_last()).insert(es.last().0, es.last().1)
    }
}

/// The table applying `a` then `b` is the table of `a` updated by `b`.
pub proof fn lemma_map_of_append(a: Updates, b: Updates)
    ensures
        map_of(a + b) == map_of(a).union_prefer_right(map_of(b)),
    decreases b.len(),
{
    if b.len() == 0 {
        assert(a + b =~= a);
        assert(map_of(a).union_prefer_right(map_of(b)) =~= map_of(a));
    } else {
        assert((a + b).drop_last() =~= a + b.drop_last());
        lemma_map_of_append(a, b.drop_last());
        assert(map_of(a + b) =~= map_of(a).union_prefer_right(map_of(b)));
    }
}

/// The endpoint type of an address: its entry in the table; otherwise `Remote` for a
/// public IP address; otherwise `Unknown`.
pub open spec fn endpoint_of(m: Map<Seq<char>, EndpointType>, ip: Seq<char>) -> EndpointType {
    if m.dom().contains(ip) {
        m[ip]
    } else if text_is_global(ip) {
        EndpointType::Remote
    } else {
        EndpointType::Unknown
    }
}

/// The kind of endpoint behind a network interface, judged by its name.
pub open spec fn interface_kind(dev: Seq<char>) -> EndpointType {
    if starts_with(dev, "wl"@) || starts_with(dev, "ra"@) || starts_with(dev, "ath"@)
        || starts_with(dev, "mt76"@) || starts_with(dev, "phy"@) {
        EndpointType::Wireless
    } else if starts_with(dev, "eth"@) || starts_with(dev, "lan"@) || starts_with(dev, "sw"@)
        || starts_with(dev, "en"@) {
        EndpointType::Wired
    } else if starts_with(dev, "wg"@) || starts_with(dev, "tun"@) || starts_with(dev, "tap"@)
        || starts_with(dev, "tailscale"@) {
        EndpointType::Vpn
    } else {
        EndpointType::Unknown
    }
}

/// The router's own address carried by one token of `ip addr` output: the part before
/// the first `/`, when the token has one and that part is an IP address.
pub open spec fn addr_update(tok: Seq<char>) -> Updates {
    match index_of(tok, '/') {
        Some(i) => if text_is_ip(tok.take(i)) {
            seq![(tok.take(i), EndpointType::Router)]
        } else {
            seq![]
        },
        None => seq![],
    }
}

/// The router's own addresses in the tokens of `ip addr` output.
pub open spec fn addr_updates(toks: Seq<Seq<char>>) -> Updates
    decreases toks.len(),
{
    if toks.len() == 0 {
        seq![]
    } else {
        addr_update(toks[0]) + addr_updates(toks.drop_first())
    }
}

/// Index of the first element equal to `x`.
pub open spec fn position_of(p: Seq<Seq<char>>, x: Seq<char>) -> Option<int>
    decreases p.len(),
{
    if p.len() == 0 {
        None
    } else if p[0] == x {
        Some(0)
    } else {
        match position_of(p.drop_first(), x) {
            Some(i) => Some(i + 1),
            None => None,
        }
    }
}

/// The lower-cased word after the first `lladdr` of a neighbour entry.
pub open spec fn neighbour_mac(p: Seq<Seq<char>>) -> Option<Seq<char>> {
    match position_of(p, "lladdr"@) {
        Some(i) => if 0 <= i && i + 1 < p.len() {
            Some(lowercase(p[i + 1]))
        } else {
            None
        },
        None => None,
    }
}

/// A client on a bridge with the (lower-cased) MAC address `mac`: wireless when the MAC
/// belongs to an associated Wi-Fi station, else wired.
pub open spec fn bridge_kind(mac: Seq<char>, macs: Seq<Seq<char>>) -> EndpointType {
    if macs.contains(mac) {
        EndpointType::Wireless
    } else {
        EndpointType::Wired
    }
}

/// A device name that denotes a network bridge.
pub open spec fn is_bridge(dev: Seq<char>) -> bool {
    starts_with(dev, "br-"@) || dev == "bridge"@ || dev == "br0"@
}

/// The assignment made by one line of `ip neigh show` output: a client on a bridge is
/// wireless when its MAC address belongs to an associated Wi-Fi station, else wired (and
/// skipped without a MAC address); a client on another interface is judged by the
/// interface's name.
pub open spec fn neigh_update(line: Seq<char>, macs: Seq<Seq<char>>) -> Updates {
    let p = tokens(line);
    if p.len() >= 5 && p[1] == "dev"@ {
        let ip = p[0];
        let dev = p[2];
        if is_bridge(dev) {
            match neighbour_mac(p) {
                Some(m) => seq![(ip, bridge_kind(m, macs))],
                None => seq![],
            }
        } else {
            seq![(ip, interface_kind(dev))]
        }
    } else {
        seq![]
    }
}

/// The assignments made by the lines of `ip neigh show` output.
pub open spec fn neigh_updates(ls: Seq<Seq<char>>, macs: Seq<Seq<char>>) -> Updates
    decreases ls.len(),
{
    if ls.len() == 0 {
        seq![]
    } else {
        neigh_update(ls[0], macs) + neigh_updates(ls.drop_first(), macs)
    }
}

/// All assignments of a topology scan: the router's own addresses first, then the
/// neighbour table.
pub open spec fn topology_updates(
    addr_out: Option<Seq<char>>,
    neigh_out: Option<Seq<char>>,
    macs: Seq<Seq<char>>,
) -> Updates {
    (match addr_out {
        Some(t) => addr_updates(tokens(t)),
        None => seq![],
    }) + (match neigh_out {
        Some(t) => neigh_updates(lines(t), macs),
        None => seq![],
    })
}

/// The names of the interfaces listed by `iw dev` (lines `Interface <name>`).
pub open spec fn iface_names(ls: Seq<Seq<char>>) -> Seq<Seq<char>>
    decreases ls.len(),
{
    if ls.len() == 0 {
        seq![]
    } else {
        let p = tokens(ls[0]);
        (if p.len() >= 2 && p[0] == "Interface"@ {
            seq![p[1]]
        } else {
            seq![]
        }) + iface_names(ls.drop_first())
    }
}

/// The lower-cased MAC addresses listed by `iw dev <if> station dump`
/// (lines `Station <mac> ...`).
pub open spec fn station_names(ls: Seq<Seq<char>>) -> Seq<Seq<char>>
    decreases ls.len(),
{
    if ls.len() == 0 {
        seq![]
    } else {
        let p = tokens(ls[0]);
        (if p.len() >= 2 && p[0] == "Station"@ {
            seq![lowercase(p[1])]
        } else {
            seq![]
        }) + station_names(ls.drop_first())
    }
}

/// Table of known endpoints, keyed by IP address text.
///
/// The entries are kept as a list of assignments, later ones winning, whose view is the map
/// they define. A std hash map keyed by text would give the proofs nothing to build on: vstd
/// describes a std hash map's operations only for keys that obey its key model, which it
/// establishes for integer keys, not for text.
pub struct Topology {
    entries: Vec<(Vec<char>, EndpointType)>,
}

/// The assignments held by a vector of entries.
pub open spec fn entry_views(es: Seq<(Vec<char>, EndpointType)>) -> Updates {
    es.map_values(|e: (Vec<char>, EndpointType)| (e.0@, e.1))
}

impl View for Topology {
    type V = Map<Seq<char>, EndpointType>;

    closed spec fn view(&self) -> Map<Seq<char>, EndpointType> {
        map_of(entry_views(self.entries@))
    }
}

/// Pushes `(k, t)` onto `entries`, whose views are `before`.
fn push_entry(entries: &mut Vec<(Vec<char>, EndpointType)>, k: Vec<char>, t: EndpointType)
    ensures
        entry_views(final(entries)@) == entry_views(old(entries)@).push((k@, t)),
{
    let ghost before = entry_views(entries@);
    let ghost kv = k@;
    entries.push((k, t));
    assert(entry_views(entries@) =~= before.push((kv, t)));
}

impl Topology {
    /// An empty table.
    pub fn new() -> (r: Topology)
        ensures
            r@ == Map::<Seq<char>, EndpointType>::empty(),
    {
        let r = Topology { entries: Vec::new() };
        assert(entry_views(r.entries@) =~= Seq::<(Seq<char>, EndpointType)>::empty());
        r
    }

    /// Records the endpoint type of an address, replacing any earlier one.
    pub fn insert(&mut self, ip: &str, t: EndpointType)
        ensures
            final(self)@ == old(self)@.insert(ip@, t),
    {
        let k = chars_of(ip);
        push_entry(&mut self.entries, k, t);
        assert(entry_views(self.entries@).drop_last() =~= entry_views(old(self).entries@));
    }

    /// The entry for an address, if any.
    pub fn lookup(&self, ip: &Vec<char>) -> (r: Option<EndpointType>)
        ensures
            r == if self@.dom().contains(ip@) {
                Some(self@[ip@])
            } else {
                None
            },
    {
        let ghost es = entry_views(self.entries@);
        let mut j: usize = self.entries.len();
        assert(es.take(j as int) =~= es);
        while j > 0
            invariant
                j <= self.entries.len(),
                es == entry_views(self.entries@),
                map_of(es).dom().contains(ip@) == map_of(es.take(j as int)).dom().contains(ip@),
                map_of(es).dom().contains(ip@) ==> map_of(es)[ip@] == map_of(
                    es.take(j as int),
                )[ip@],
            decreases j,
        {
            assert(es.take(j as int).drop_last() =~= es.take(j - 1));
            assert(es.take(j as int).last() == es[j - 1]);
            if eq_seq(&self.entries[j - 1].0, ip) {
                return Some(self.entries[j - 1].1);
            }
            j = j - 1;
        }
        None
    }

    /// Gets the client type of an IP address: its entry in the table; otherwise `Remote`
    /// for a public IP address; otherwise `Unknown`.
    pub fn get_type(&self, ip: &str) -> (r: EndpointType)
        ensures
            r == endpoint_of(self@, ip@),
    {
        let v = chars_of(ip);
        self.get_type_chars(&v)
    }

    /// [`Topology::get_type`] on characters.
    pub fn get_type_chars(&self, ip: &Vec<char>) -> (r: EndpointType)
        ensures
            r == endpoint_of(self@, ip@),
    {
        match self.lookup(ip) {
            Some(t) => t,
            None => if is_global_text(ip) {
                EndpointType::Remote
            } else {
                EndpointType::Unknown
            },
        }
    }

    /// Builds the table from the outputs of `ip addr`, `ip neigh show` (each absent when the
    /// command could not run) and the MAC addresses of the associated Wi-Fi stations. Only
    /// membership in `wifi_macs` matters, so its order and repetitions do not change the table.
    pub fn build_topology(
        addr_output: Option<&str>,
        neigh_output: Option<&str>,
        wifi_macs: &Vec<String>,
    ) -> (r: Topology)
        ensures
            r@ == map_of(
                topology_updates(
                    match addr_output {
                        Some(t) => Some(t@),
                        None => None,
                    },
                    match neigh_output {
                        Some(t) => Some(t@),
                        None => None,
                    },
                    wifi_macs@.map_values(|m: String| m@),
                ),
            ),
    {
        let ghost macs = wifi_macs@.map_values(|m: String| m@);
        let mut mac_chars: Vec<Vec<char>> = Vec::new();
        let mut q: usize = 0;
        while q < wifi_macs.len()
            invariant
                q <= wifi_macs.len(),
                macs == wifi_macs@.map_values(|m: String| m@),
                views(mac_chars@) == macs.take(q as int),
            decreases wifi_macs.len() - q,
        {
            let m = chars_of(wifi_macs[q].as_str());
            assert(macs[q as int] == wifi_macs@[q as int]@);
            let ghost before = views(mac_chars@);
            mac_chars.push(m);
            assert(views(mac_chars@) =~= before.push(macs[q as int]));
            q = q + 1;
            assert(views(mac_chars@) =~= macs.take(q as int));
        }
        assert(macs.take(q as int) =~= macs);
        let mut entries: Vec<(Vec<char>, EndpointType)> = Vec::new();
        let ghost a = match addr_output {
            Some(t) => addr_updates(tokens(t@)),
            None => seq![],
        };
        if let Some(t) = addr_output {
            let toks = split_ws(&chars_of(t));
            Self::push_addr_updates(&mut entries, &toks);
        }
        assert(entry_views(entries@) =~= a);
        if let Some(t) = neigh_output {
            let ls = split_lines(&chars_of(t));
            Self::push_neigh_updates(&mut entries, &ls, &mac_chars);
        } else {
            assert(a + Seq::<(Seq<char>, EndpointType)>::empty() =~= a);
        }
        Topology { entries }
    }

    fn push_addr_updates(entries: &mut Vec<(Vec<char>, EndpointType)>, toks: &Vec<Vec<char>>)
        ensures
            entry_views(final(entries)@) == entry_views(old(entries)@) + addr_updates(views(toks@)),
    {
        let ghost start = entry_views(entries@);
        let ghost all = views(toks@);
        let mut i: usize = 0;
        assert(all.skip(0) =~= all);
        assert(start + addr_updates(all) =~= start + addr_updates(all.skip(0)));
        while i < toks.len()
            invariant
                i <= toks.len(),
                all == views(toks@),
                start + addr_updates(all) == entry_views(entries@) + addr_updates(all.skip(i as int)),
            decreases toks.len() - i,
        {
            let ghost before = entry_views(entries@);
            let tok = &toks[i];
            assert(all.skip(i as int)[0] == tok@);
            assert(all.skip(i as int).drop_first() =~= all.skip(i + 1));
            match find_char(tok, '/') {
                Some(k) => {
                    proof {
                        crate::text::lemma_index_of(tok@, '/');
                    }
                    let ip = slice_of(tok, 0, k);
                    assert(ip@ =~= tok@.take(k as int));
                    if parse_ip_text(&ip).is_some() {
                        push_entry(entries, ip, EndpointType::Router);
                        assert(before + (addr_update(tok@) + addr_updates(all.skip(i + 1)))
                            =~= entry_views(entries@) + addr_updates(all.skip(i + 1)));
                    } else {
                        assert(before + (addr_update(tok@) + addr_updates(all.skip(i + 1)))
                            =~= entry_views(entries@) + addr_updates(all.skip(i + 1)));
                    }
                },
                None => {
                    assert(before + (addr_update(tok@) + addr_updates(all.skip(i + 1)))
                        =~= entry_views(entries@) + addr_updates(all.skip(i + 1)));
                },
            }
            i = i + 1;
        }
        assert(all.skip(i as int) =~= Seq::<Seq<char>>::empty());
        assert(entry_views(entries@) + addr_updates(all.skip(i as int)) =~= entry_views(entries@));
    }

    /// Index of the first token equal to the literal `x`.
    fn position_of_str(p: &Vec<Vec<char>>, x: &str) -> (r: Option<usize>)
        ensures
            r matches Some(i) ==> position_of(views(p@), x@) == Some(i as int) && i < p.len(),
            r is None ==> position_of(views(p@), x@) is None,
    {
        let ghost ps = views(p@);
        let mut i: usize = 0;
        assert(ps.skip(0) =~= ps);
        while i < p.len()
            invariant
                i <= p.len(),
                ps == views(p@),
                position_of(ps, x@) == match position_of(ps.skip(i as int), x@) {
                    Some(j) => Some(j + i),
                    None => None,
                },
            decreases p.len() - i,
        {
            assert(ps.skip(i as int)[0] == p[i as int]@);
            assert(ps.skip(i as int).drop_first() =~= ps.skip(i + 1));
            if eq_str(&p[i], x) {
                return Some(i);
            }
            i = i + 1;
        }
        None
    }

    /// The kind of endpoint behind a network interface, judged by its name.
    pub fn classify_interface(dev: &str) -> (r: EndpointType)
        ensures
            r == interface_kind(dev@),
    {
        let d = chars_of(dev);
        Self::classify_interface_chars(&d)
    }

    fn classify_interface_chars(d: &Vec<char>) -> (r: EndpointType)
        ensures
            r == interface_kind(d@),
    {
        if starts_with_str(d, "wl") || starts_with_str(d, "ra") || starts_with_str(d, "ath")
            || starts_with_str(d, "mt76") || starts_with_str(d, "phy") {
            EndpointType::Wireless
        } else if starts_with_str(d, "eth") || starts_with_str(d, "lan") || starts_with_str(
            d,
            "sw",
        ) || starts_with_str(d, "en") {
            EndpointType::Wired
        } else if starts_with_str(d, "wg") || starts_with_str(d, "tun") || starts_with_str(
            d,
            "tap",
        ) || starts_with_str(d, "tailscale") {
            EndpointType::Vpn
        } else {
            EndpointType::Unknown
        }
    }

    /// The kind of a client on a bridge, from its lower-cased MAC address and the MAC
    /// addresses of the associated Wi-Fi stations (see [`bridge_kind`]).
    pub fn bridge_client_kind(mac: &Vec<char>, macs: &Vec<Vec<char>>) -> (r: EndpointType)
        ensures
            r == bridge_kind(mac@, views(macs@)),
    {
        if Self::contains_mac(macs, mac) {
            EndpointType::Wireless
        } else {
            EndpointType::Wired
        }
    }

    fn contains_mac(macs: &Vec<Vec<char>>, m: &Vec<char>) -> (r: bool)
        ensures
            r == views(macs@).contains(m@),
    {
        let mut i: usize = 0;
        while i < macs.len()
            invariant
                i <= macs.len(),
                forall|j: int| 0 <= j < i ==> macs@[j]@ != m@,
            decreases macs.len() - i,
        {
            if eq_seq(&macs[i], m) {
                assert(views(macs@)[i as int] == m@);
                return true;
            }
            i = i + 1;
        }
        assert(!views(macs@).contains(m@)) by {
            if views(macs@).contains(m@) {
                let j = choose|j: int| 0 <= j < views(macs@).len() && views(macs@)[j] == m@;
                assert(macs@[j]@ == m@);
            }
        }
        false
    }

    /// The assignment made by one neighbour line, as a vector of at most one entry.
    fn neigh_line(line: &Vec<char>, macs: &Vec<Vec<char>>) -> (r: Option<(Vec<char>, EndpointType)>)
        ensures
            neigh_update(line@, views(macs@)) == match r {
                Some(e) => seq![(e.0@, e.1)],
                None => Seq::<(Seq<char>, EndpointType)>::empty(),
            },
    {
        let p = split_ws(line);
        if p.len() >= 5 && eq_str(&p[1], "dev") {
            let ip = slice_of(&p[0], 0, p[0].len());
            assert(ip@ =~= p@[0]@);
            let dev = &p[2];
            let bridge = starts_with_str(dev, "br-") || eq_str(dev, "bridge") || eq_str(dev, "br0");
            if bridge {
                match Self::position_of_str(&p, "lladdr") {
                    Some(i) => {
                        if i + 1 < p.len() {
                            let m = lowercase_chars(&p[i + 1]);
                            let t = Self::bridge_client_kind(&m, macs);
                            Some((ip, t))
                        } else {
                            None
                        }
                    },
                    None => None,
                }
            } else {
                let t = Self::classify_interface_chars(dev);
                Some((ip, t))
            }
        } else {
            None
        }
    }

    fn push_neigh_updates(
        entries: &mut Vec<(Vec<char>, EndpointType)>,
        ls: &Vec<Vec<char>>,
        macs: &Vec<Vec<char>>,
    )
        ensures
            entry_views(final(entries)@) == entry_views(old(entries)@) + neigh_updates(
                views(ls@),
                views(macs@),
            ),
    {
        let ghost start = entry_views(entries@);
        let ghost all = views(ls@);
        let ghost mv = views(macs@);
        let mut i: usize = 0;
        assert(all.skip(0) =~= all);
        while i < ls.len()
            invariant
                i <= ls.len(),
                all == views(ls@),
                mv == views(macs@),
                start + neigh_updates(all, mv) == entry_views(entries@) + neigh_updates(
                    all.skip(i as int),
                    mv,
                ),
            decreases ls.len() - i,
        {
            let ghost before = entry_views(entries@);
            assert(all.skip(i as int)[0] == ls[i as int]@);
            assert(all.skip(i as int).drop_first() =~= all.skip(i + 1));
            match Self::neigh_line(&ls[i], macs) {
                Some((ip, t)) => {
                    push_entry(entries, ip, t);
                },
                None => {},
            }
            assert(before + (neigh_update(ls[i as int]@, mv) + neigh_updates(all.skip(i + 1), mv))
                =~= entry_views(entries@) + neigh_updates(all.skip(i + 1), mv));
            i = i + 1;
        }
        assert(all.skip(i as int) =~= Seq::<Seq<char>>::empty());
        assert(entry_views(entries@) + neigh_updates(all.skip(i as int), mv) =~= entry_views(
            entries@,
        ));
    }

    /// Whether the text is an IP address routable on the public Internet.
    pub fn is_global(ip: &str) -> (r: bool)
        ensures
            r == text_is_global(ip@),
    {
        let v = chars_of(ip);
        is_global_text(&v)
    }

    /// The names of the Wi-Fi interfaces listed in the output of `iw dev`.
    pub fn wifi_interfaces(iw_dev_output: &str) -> (r: Vec<String>)
        ensures
            r@.map_values(|s: String| s@) == iface_names(lines(iw_dev_output@)),
    {
        Self::second_words(iw_dev_output, "Interface", false)
    }

    /// The lower-cased MAC addresses of the stations listed in the output of
    /// `iw dev <interface> station dump`.
    pub fn station_macs(station_dump_output: &str) -> (r: Vec<String>)
        ensures
            r@.map_values(|s: String| s@) == station_names(lines(station_dump_output@)),
    {
        Self::second_words(station_dump_output, "Station", true)
    }

    fn second_words(out: &str, tag: &str, lower: bool) -> (r: Vec<String>)
        requires
            tag@ == "Interface"@ && !lower || tag@ == "Station"@ && lower,
        ensures
            lower ==> r@.map_values(|s: String| s@) == station_names(lines(out@)),
            !lower ==> r@.map_values(|s: String| s@) == iface_names(lines(out@)),
    {
        let ls = split_lines(&chars_of(out));
        let ghost all = views(ls@);
        let ghost target = if lower {
            station_names(all)
        } else {
            iface_names(all)
        };
        let mut r: Vec<String> = Vec::new();
        let mut i: usize = 0;
        assert(all.skip(0) =~= all);
        while i < ls.len()
            invariant
                i <= ls.len(),
                all == views(ls@),
                tag@ == "Interface"@ && !lower || tag@ == "Station"@ && lower,
                target == if lower {
                    station_names(all)
                } else {
                    iface_names(all)
                },
                target == r@.map_values(|s: String| s@) + if lower {
                    station_names(all.skip(i as int))
                } else {
                    iface_names(all.skip(i as int))
                },
            decreases ls.len() - i,
        {
            let ghost before = r@.map_values(|s: String| s@);
            assert(all.skip(i as int)[0] == ls[i as int]@);
            assert(all.skip(i as int).drop_first() =~= all.skip(i + 1));
            let p = split_ws(&ls[i]);
            if p.len() >= 2 && eq_str(&p[0], tag) {
                let w = if lower {
                    lowercase_chars(&p[1])
                } else {
                    slice_of(&p[1], 0, p[1].len())
                };
                assert(!lower ==> w@ =~= p@[1]@);
                r.push(string_of(&w));
                assert(r@.map_values(|s: String| s@) =~= before.push(w@));
            }
            assert(r@.map_values(|s: String| s@) + (if lower {
                station_names(all.skip(i + 1))
            } else {
                iface_names(all.skip(i + 1))
            }) =~= before + (if lower {
                station_names(all.skip(i as int))
            } else {
                iface_names(all.skip(i as int))
            }));
            i = i + 1;
        }
        assert(all.skip(i as int) =~= Seq::<Seq<char>>::empty());
        assert(r@.map_values(|s: String| s@) + Seq::<Seq<char>>::empty() =~= r@.map_values(
            |s: String| s@,
        ));
        r
    }
}

/// After an address's type is recorded, it is the type looked up for that address, and the
/// type of every other address is unchanged.
pub proof fn law_get_type_after_insert(
    m: Map<Seq<char>, EndpointType>,
    ip: Seq<char>,
    t: EndpointType,
    other: Seq<char>,
)
    ensures
        endpoint_of(m.insert(ip, t), ip) == t,
        other != ip ==> endpoint_of(m.insert(ip, t), other) == endpoint_of(m, other),
{
}

/// A neighbour entry `<ip> dev <bridge> lladdr <mac> ...` on a bridge (`br0`, `bridge`, or a
/// name beginning with `br-`) makes `<ip>` Wireless when the lower-cased MAC address belongs
/// to an associated Wi-Fi station, and Wired otherwise, whatever the bridge is called.
pub proof fn law_bridge_neighbour(line: Seq<char>, macs: Seq<Seq<char>>)
    requires
        tokens(line).len() >= 5,
        tokens(line)[0] != "lladdr"@,
        tokens(line)[1] == "dev"@,
        tokens(line)[2] == "br0"@ || tokens(line)[2] == "bridge"@ || starts_with(
            tokens(line)[2],
            "br-"@,
        ),
        tokens(line)[3] == "lladdr"@,
    ensures
        neigh_update(line, macs) == seq![
            (
                tokens(line)[0],
                if macs.contains(lowercase(tokens(line)[4])) {
                    EndpointType::Wireless
                } else {
                    EndpointType::Wired
                },
            ),
        ],
{
    let p = tokens(line);
    reveal_strlit("lladdr");
    reveal_strlit("dev");
    reveal_strlit("br0");
    reveal_strlit("bridge");
    reveal_strlit("br-");
    assert(p[1] != "lladdr"@) by {
        assert(p[1].len() != "lladdr"@.len());
    }
    assert(p[2] != "lladdr"@) by {
        if p[2] == "br0"@ {
            assert(p[2].len() != "lladdr"@.len());
        } else if p[2] == "bridge"@ {
            assert(p[2][0] != "lladdr"@[0]);
        } else {
            assert(p[2].take(3)[0] == p[2][0]);
            assert(p[2][0] != "lladdr"@[0]);
        }
    }
    assert(is_bridge(p[2]));
    assert(p.drop_first()[0] == p[1]);
    assert(p.drop_first().drop_first()[0] == p[2]);
    assert(p.drop_first().drop_first().drop_first()[0] == p[3]);
    reveal_with_fuel(position_of, 4);
    assert(position_of(p, "lladdr"@) == Some(3int));
}

} // verus!
