//! Connection tracking statistics: parsing of `/proc/net/nf_conntrack` lines.
use vstd::prelude::*;
use crate::text::{
    chars_of, contains, contains_str, eq_str, parse_bounded, parse_unsigned, remove_all,
    remove_all_str, slice_of, split_ws, starts_with, starts_with_str, string_of, tokens, trim,
    trim_ws, views,
};
use crate::topology::{endpoint_of, EndpointType, Topology};

verus! {

/// Indicates whether a flow is processed by the CPU or hardware offloaded.
#[derive(Debug, Clone, Copy, PartialEq, Eq, Structural)]
pub enum OffloadStatus {
    /// Software flow offload.
    Software,
    /// Hardware offload (PPE).
    Hardware,
    /// CPU (slow path).
    Cpu,
}

impl Default for OffloadStatus {
    fn default() -> (r: Self)
        ensures
            r == OffloadStatus::Cpu,
    {
        OffloadStatus::Cpu
    }
}

impl OffloadStatus {
    /// Returns the label representation for the UI.
    pub fn label(&self) -> (r: &'static str)
        ensures
            r@ == match *self {
                OffloadStatus::Software => "SOFTWARE"@,
                OffloadStatus::Hardware => "HW (PPE)"@,
                OffloadStatus::Cpu => "CPU"@,
            },
    {
        match self {
            OffloadStatus::Software => "SOFTWARE",
            OffloadStatus::Hardware => "HW (PPE)",
            OffloadStatus::Cpu => "CPU",
        }
    }
}

/// What a [`Connection`] holds.
pub struct ConnectionView {
    pub protocol: Seq<char>,
    pub src_ip: Seq<char>,
    pub src_type: EndpointType,
    pub dst_ip: Seq<char>,
    pub dst_type: EndpointType,
    pub status: Seq<char>,
    pub offload: OffloadStatus,
}

/// Represents an active network connection entry.
#[derive(Debug, Clone)]
pub struct Connection {
    pub protocol: String,
    pub src_ip: String,
    pub src_type: EndpointType,
    pub dst_ip: String,
    pub dst_type: EndpointType,
    pub status: String,
    pub offload: OffloadStatus,
}

impl View for Connection {
    type V = ConnectionView;

    open spec fn view(&self) -> ConnectionView {
        ConnectionView {
            protocol: self.protocol@,
            src_ip: self.src_ip@,
            src_type: self.src_type,
            dst_ip: self.dst_ip@,
            dst_type: self.dst_type,
            status: self.status@,
            offload: self.offload,
        }
    }
}

/// What a [`ConntrackStats`] holds.
pub struct StatsView {
    pub total: nat,
    pub max: nat,
    pub cpu: nat,
    pub software: nat,
    pub hardware: nat,
    pub connections: Seq<ConnectionView>,
}

/// Statistics for connection tracking.
#[derive(Debug)]
pub struct ConntrackStats {
    pub total: u32,
    pub max: u32,
    pub cpu: u32,
    pub software: u32,
    pub hardware: u32,
    /// Parsed list of active connections.
    pub connections: Vec<Connection>,
}

/// The views of a sequence of connections.
pub open spec fn conn_views(cs: Seq<Connection>) -> Seq<ConnectionView> {
    cs.map_values(|c: Connection| c@)
}

impl View for ConntrackStats {
    type V = StatsView;

    open spec fn view(&self) -> StatsView {
        StatsView {
            total: self.total as nat,
            max: self.max as nat,
            cpu: self.cpu as nat,
            software: self.software as nat,
            hardware: self.hardware as nat,
            connections: conn_views(self.connections@),
        }
    }
}

impl Default for ConntrackStats {
    /// Empty statistics.
    fn default() -> (r: Self)
        ensures
            r@ == (StatsView {
                total: 0,
                max: 0,
                cpu: 0,
                software: 0,
                hardware: 0,
                connections: seq![],
            }),
    {
        let r = ConntrackStats {
            total: 0,
            max: 0,
            cpu: 0,
            software: 0,
            hardware: 0,
            connections: Vec::new(),
        };
        assert(conn_views(r.connections@) =~= Seq::<ConnectionView>::empty());
        r
    }
}

// ---------------------------------------------------------------------------
// Specification of the parser
// ---------------------------------------------------------------------------

/// The offload status of a conntrack line: `[HW_OFFLOAD]` marks a flow offloaded to the
/// PPE, `[OFFLOAD]` one in software flow offloading; the hardware tag wins.
pub open spec fn offload_of(line: Seq<char>) -> OffloadStatus {
    if contains(line, "[HW_OFFLOAD]"@) {
        OffloadStatus::Hardware
    } else if contains(line, "[OFFLOAD]"@) {
        OffloadStatus::Software
    } else {
        OffloadStatus::Cpu
    }
}

/// The first token beginning with `pre`.
pub open spec fn first_with_prefix(p: Seq<Seq<char>>, pre: Seq<char>) -> Option<Seq<char>>
    decreases p.len(),
{
    if p.len() == 0 {
        None
    } else if starts_with(p[0], pre) {
        Some(p[0])
    } else {
        first_with_prefix(p.drop_first(), pre)
    }
}

/// The first token that is a connection state flag (`UNREPLIED` or `ASSURED`).
pub open spec fn first_state_flag(p: Seq<Seq<char>>) -> Option<Seq<char>>
    decreases p.len(),
{
    if p.len() == 0 {
        None
    } else if p[0] == "UNREPLIED"@ || p[0] == "ASSURED"@ {
        Some(p[0])
    } else {
        first_state_flag(p.drop_first())
    }
}

/// An address field (`src=` or `dst=`): the first token with that prefix, with every
/// occurrence of the prefix removed; empty when there is none.
pub open spec fn address_field(p: Seq<Seq<char>>, pre: Seq<char>) -> Seq<char> {
    match first_with_prefix(p, pre) {
        Some(t) => remove_all(t, pre),
        None => seq![],
    }
}

/// The connection described by a conntrack line: lines of fewer than six words give none;
/// the protocol is the third word; the state is the sixth word for TCP and otherwise the
/// first `UNREPLIED` or `ASSURED` word (empty if none).
pub open spec fn connection_of(line: Seq<char>, topo: Map<Seq<char>, EndpointType>) -> Option<
    ConnectionView,
> {
    let p = tokens(line);
    if p.len() < 6 {
        None
    } else {
        let protocol = p[2];
        let status = if protocol == "tcp"@ {
            p[5]
        } else {
            match first_state_flag(p) {
                Some(t) => t,
                None => seq![],
            }
        };
        let src = address_field(p, "src="@);
        let dst = address_field(p, "dst="@);
        Some(
            ConnectionView {
                protocol,
                src_ip: src,
                src_type: endpoint_of(topo, src),
                dst_ip: dst,
                dst_type: endpoint_of(topo, dst),
                status,
                offload: offload_of(line),
            },
        )
    }
}

/// The connections described by the lines that describe one.
pub open spec fn connections_of(ls: Seq<Seq<char>>, topo: Map<Seq<char>, EndpointType>) -> Seq<
    ConnectionView,
>
    decreases ls.len(),
{
    if ls.len() == 0 {
        seq![]
    } else {
        (match connection_of(ls[0], topo) {
            Some(c) => seq![c],
            None => seq![],
        }) + connections_of(ls.drop_first(), topo)
    }
}

/// The number of connections with the given offload status.
pub open spec fn count_offload(cs: Seq<ConnectionView>, o: OffloadStatus) -> nat
    decreases cs.len(),
{
    if cs.len() == 0 {
        0
    } else {
        (if cs[0].offload == o {
            1nat
        } else {
            0nat
        }) + count_offload(cs.drop_first(), o)
    }
}

/// The connection limit: the trimmed text read as a 32-bit number, 16384 when the text is
/// absent or not such a number.
pub open spec fn max_of(max_text: Option<Seq<char>>) -> nat {
    match max_text {
        Some(t) => match parse_bounded(trim(t), false, 0xffff_ffff) {
            Some(v) => v,
            None => 16384,
        },
        None => 16384,
    }
}

/// One stand-in connection.
pub open spec fn sample(
    protocol: Seq<char>,
    src_ip: Seq<char>,
    src_type: EndpointType,
    dst_ip: Seq<char>,
    status: Seq<char>,
    offload: OffloadStatus,
) -> ConnectionView {
    ConnectionView {
        protocol,
        src_ip,
        src_type,
        dst_ip,
        dst_type: EndpointType::Remote,
        status,
        offload,
    }
}

/// The stand-in connections shown when the conntrack table cannot be opened.
pub open spec fn sample_connections() -> Seq<ConnectionView> {
    seq![
        sample("tcp"@, "192.168.1.15"@, EndpointType::Wireless, "142.250.186.46"@, "ESTABLISHED"@, OffloadStatus::Hardware),
        sample("udp"@, "192.168.1.50"@, EndpointType::Wireless, "104.16.124.96"@, "ASSURED"@, OffloadStatus::Hardware),
        sample("tcp"@, "192.168.1.100"@, EndpointType::Wired, "8.8.8.8"@, "TIME_WAIT"@, OffloadStatus::Software),
        sample("udp"@, "192.168.1.1"@, EndpointType::Wireless, "91.189.91.157"@, "UNREPLIED"@, OffloadStatus::Cpu),
    ]
}

/// The statistics for the connection limit text and the lines of the conntrack table
/// (absent when the table cannot be opened, in which case stand-in data is shown).
pub open spec fn stats_of(
    max_text: Option<Seq<char>>,
    table: Option<Seq<Seq<char>>>,
    topo: Map<Seq<char>, EndpointType>,
) -> StatsView {
    match table {
        Some(ls) => {
            let cs = connections_of(ls, topo);
            StatsView {
                total: ls.len(),
                max: max_of(max_text),
                cpu: count_offload(cs, OffloadStatus::Cpu),
                software: count_offload(cs, OffloadStatus::Software),
                hardware: count_offload(cs, OffloadStatus::Hardware),
                connections: cs,
            }
        },
        None => StatsView {
            total: 4,
            max: max_of(max_text),
            cpu: 1,
            software: 1,
            hardware: 2,
            connections: sample_connections(),
        },
    }
}

// ---------------------------------------------------------------------------
// Parser
// ---------------------------------------------------------------------------

/// Classifies the offload status of a conntrack line based on its status tags.
pub fn classify_offload(line: &Vec<char>) -> (r: OffloadStatus)
    ensures
        r == offload_of(line@),
{
    if contains_str(line, "[HW_OFFLOAD]") {
        OffloadStatus::Hardware
    } else if contains_str(line, "[OFFLOAD]") {
        OffloadStatus::Software
    } else {
        OffloadStatus::Cpu
    }
}

fn first_with_prefix_str(p: &Vec<Vec<char>>, pre: &str) -> (r: Option<usize>)
    ensures
        r matches Some(i) ==> i < p.len() && first_with_prefix(views(p@), pre@) == Some(p@[i as int]@),
        r is None ==> first_with_prefix(views(p@), pre@) is None,
{
    let ghost ps = views(p@);
    let mut i: usize = 0;
    assert(ps.skip(0) =~= ps);
    while i < p.len()
        invariant
            i <= p.len(),
            ps == views(p@),
            first_with_prefix(ps, pre@) == first_with_prefix(ps.skip(i as int), pre@),
        decreases p.len() - i,
    {
        assert(ps.skip(i as int)[0] == p@[i as int]@);
        assert(ps.skip(i as int).drop_first() =~= ps.skip(i + 1));
        if starts_with_str(&p[i], pre) {
            return Some(i);
        }
        i = i + 1;
    }
    None
}

fn first_state_flag_index(p: &Vec<Vec<char>>) -> (r: Option<usize>)
    ensures
        r matches Some(i) ==> i < p.len() && first_state_flag(views(p@)) == Some(p@[i as int]@),
        r is None ==> first_state_flag(views(p@)) is None,
{
    let ghost ps = views(p@);
    let mut i: usize = 0;
    assert(ps.skip(0) =~= ps);
    while i < p.len()
        invariant
            i <= p.len(),
            ps == views(p@),
            first_state_flag(ps) == first_state_flag(ps.skip(i as int)),
        decreases p.len() - i,
    {
        assert(ps.skip(i as int)[0] == p@[i as int]@);
        assert(ps.skip(i as int).drop_first() =~= ps.skip(i + 1));
        if eq_str(&p[i], "UNREPLIED") || eq_str(&p[i], "ASSURED") {
            return Some(i);
        }
        i = i + 1;
    }
    None
}

fn address_field_of(p: &Vec<Vec<char>>, pre: &str) -> (r: Vec<char>)
    ensures
        r@ == address_field(views(p@), pre@),
{
    match first_with_prefix_str(p, pre) {
        Some(i) => remove_all_str(&p[i], pre),
        None => Vec::new(),
    }
}

/// Parses a single line from `/proc/net/nf_conntrack`, classifying its endpoints by the
/// topology.
pub fn parse_conntrack_line(line: &str, topology: &Topology) -> (r: Option<Connection>)
    ensures
        r matches Some(c) ==> connection_of(line@, topology@) == Some(c@),
        r is None ==> connection_of(line@, topology@) is None,
{
    let l = chars_of(line);
    parse_conntrack_chars(&l, topology)
}

/// [`parse_conntrack_line`] on characters.
pub fn parse_conntrack_chars(l: &Vec<char>, topology: &Topology) -> (r: Option<Connection>)
    ensures
        r matches Some(c) ==> connection_of(l@, topology@) == Some(c@),
        r is None ==> connection_of(l@, topology@) is None,
{
    let parts = split_ws(l);
    let ghost p = views(parts@);
    if parts.len() < 6 {
        return None;
    }
    let protocol = string_of(&parts[2]);
    let status = if eq_str(&parts[2], "tcp") {
        string_of(&parts[5])
    } else {
        match first_state_flag_index(&parts) {
            Some(i) => string_of(&parts[i]),
            None => String::new(),
        }
    };
    let src = address_field_of(&parts, "src=");
    let dst = address_field_of(&parts, "dst=");
    let src_type = topology.get_type_chars(&src);
    let dst_type = topology.get_type_chars(&dst);
    let c = Connection {
        protocol,
        src_ip: string_of(&src),
        src_type,
        dst_ip: string_of(&dst),
        dst_type,
        status,
        offload: classify_offload(l),
    };
    assert(p[2] == parts@[2]@);
    assert(p[5] == parts@[5]@);
    Some(c)
}

/// Builds one stand-in connection.
fn sample_connection(
    protocol: &str,
    src_ip: &str,
    src_type: EndpointType,
    dst_ip: &str,
    status: &str,
    offload: OffloadStatus,
) -> (r: Connection)
    ensures
        r@ == sample(protocol@, src_ip@, src_type, dst_ip@, status@, offload),
{
    Connection {
        protocol: String::from_str(protocol),
        src_ip: String::from_str(src_ip),
        src_type,
        dst_ip: String::from_str(dst_ip),
        dst_type: EndpointType::Remote,
        status: String::from_str(status),
        offload,
    }
}

/// Computes the connection tracking statistics from the text of the connection limit
/// (`/proc/sys/net/netfilter/nf_conntrack_max`, absent when unreadable) and the lines of
/// the conntrack table (`/proc/net/nf_conntrack`, absent when it cannot be opened, in which
/// case stand-in data is returned).
pub fn get_stats(max_text: Option<&str>, table: Option<&Vec<String>>, topology: &Topology) -> (r:
    ConntrackStats)
    requires
        table matches Some(ls) ==> ls.len() <= u32::MAX,
    ensures
        r@ == stats_of(
            match max_text {
                Some(t) => Some(t@),
                None => None,
            },
            match table {
                Some(ls) => Some(ls@.map_values(|l: String| l@)),
                None => None,
            },
            topology@,
        ),
{
    let ghost mt = match max_text {
        Some(t) => Some(t@),
        None => None,
    };
    let max: u32 = match max_text {
        Some(t) => {
            let tr = trim_ws(&chars_of(t));
            match parse_unsigned(&tr, false, 0xffff_ffff) {
                Some(v) => v as u32,
                None => 16384,
            }
        },
        None => 16384,
    };
    assert(max as nat == max_of(mt));
    match table {
        Some(ls) => {
            let ghost lv = ls@.map_values(|l: String| l@);
            let ghost topo = topology@;
            let mut cpu: u32 = 0;
            let mut software: u32 = 0;
            let mut hardware: u32 = 0;
            let mut connections: Vec<Connection> = Vec::new();
            let mut i: usize = 0;
            assert(lv.skip(0) =~= lv);
            assert(conn_views(connections@) + connections_of(lv, topo) =~= connections_of(lv, topo));
            while i < ls.len()
                invariant
                    i <= ls.len(),
                    ls.len() <= u32::MAX,
                    lv == ls@.map_values(|l: String| l@),
                    topo == topology@,
                    connections_of(lv, topo) == conn_views(connections@) + connections_of(
                        lv.skip(i as int),
                        topo,
                    ),
                    connections@.len() <= i,
                    cpu as nat == count_offload(conn_views(connections@), OffloadStatus::Cpu),
                    software as nat == count_offload(conn_views(connections@), OffloadStatus::Software),
                    hardware as nat == count_offload(conn_views(connections@), OffloadStatus::Hardware),
                    cpu + software + hardware == connections@.len(),
                decreases ls.len() - i,
            {
                assert(lv.skip(i as int)[0] == ls@[i as int]@);
                assert(lv.skip(i as int).drop_first() =~= lv.skip(i + 1));
                let ghost before = conn_views(connections@);
                match parse_conntrack_line(ls[i].as_str(), topology) {
                    Some(c) => {
                        proof {
                            lemma_count_push(before, c@, OffloadStatus::Cpu);
                            lemma_count_push(before, c@, OffloadStatus::Software);
                            lemma_count_push(before, c@, OffloadStatus::Hardware);
                        }
                        match c.offload {
                            OffloadStatus::Cpu => cpu = cpu + 1,
                            OffloadStatus::Software => software = software + 1,
                            OffloadStatus::Hardware => hardware = hardware + 1,
                        }
                        let ghost cv = c@;
                        connections.push(c);
                        assert(conn_views(connections@) =~= before.push(cv));
                        assert(before + (seq![cv] + connections_of(lv.skip(i + 1), topo)) =~= before.push(
                            cv,
                        ) + connections_of(lv.skip(i + 1), topo));
                    },
                    None => {
                        assert(before + (Seq::<ConnectionView>::empty() + connections_of(
                            lv.skip(i + 1),
                            topo,
                        )) =~= before + connections_of(lv.skip(i + 1), topo));
                    },
                }
                i = i + 1;
            }
            assert(lv.skip(i as int) =~= Seq::<Seq<char>>::empty());
            assert(conn_views(connections@) + Seq::<ConnectionView>::empty() =~= conn_views(
                connections@,
            ));
            ConntrackStats {
                total: ls.len() as u32,
                max,
                cpu,
                software,
                hardware,
                connections,
            }
        },
        None => {
            let mut connections: Vec<Connection> = Vec::new();
            connections.push(
                sample_connection(
                    "tcp",
                    "192.168.1.15",
                    EndpointType::Wireless,
                    "142.250.186.46",
                    "ESTABLISHED",
                    OffloadStatus::Hardware,
                ),
            );
            connections.push(
                sample_connection(
                    "udp",
                    "192.168.1.50",
                    EndpointType::Wireless,
                    "104.16.124.96",
                    "ASSURED",
                    OffloadStatus::Hardware,
                ),
            );
            connections.push(
                sample_connection(
                    "tcp",
                    "192.168.1.100",
                    EndpointType::Wired,
                    "8.8.8.8",
                    "TIME_WAIT",
                    OffloadStatus::Software,
                ),
            );
            connections.push(
                sample_connection(
                    "udp",
                    "192.168.1.1",
                    EndpointType::Wireless,
                    "91.189.91.157",
                    "UNREPLIED",
                    OffloadStatus::Cpu,
                ),
            );
            assert(conn_views(connections@) =~= sample_connections());
            ConntrackStats { total: 4, max, cpu: 1, software: 1, hardware: 2, connections }
        },
    }
}

/// Counting over a sequence extended by one connection.
pub proof fn lemma_count_push(cs: Seq<ConnectionView>, c: ConnectionView, o: OffloadStatus)
    ensures
        count_offload(cs.push(c), o) == count_offload(cs, o) + (if c.offload == o {
            1nat
        } else {
            0nat
        }),
    decreases cs.len(),
{
    if cs.len() == 0 {
        assert(cs.push(c).drop_first() =~= Seq::<ConnectionView>::empty());
        assert(cs.push(c)[0] == c);
        assert(count_offload(Seq::<ConnectionView>::empty(), o) == 0);
    } else {
        assert(cs.push(c).drop_first() =~= cs.drop_first().push(c));
        assert(cs.push(c)[0] == cs[0]);
        lemma_count_push(cs.drop_first(), c, o);
    }
}

/// The three offload counts of a list of connections add up to its length.
pub proof fn lemma_counts_sum(cs: Seq<ConnectionView>)
    ensures
        count_offload(cs, OffloadStatus::Cpu) + count_offload(cs, OffloadStatus::Software)
            + count_offload(cs, OffloadStatus::Hardware) == cs.len(),
    decreases cs.len(),
{
    if cs.len() > 0 {
        lemma_counts_sum(cs.drop_first());
    }
}

/// No more connections are parsed than there are lines.
pub proof fn lemma_connections_bounded(ls: Seq<Seq<char>>, topo: Map<Seq<char>, EndpointType>)
    ensures
        connections_of(ls, topo).len() <= ls.len(),
    decreases ls.len(),
{
    if ls.len() > 0 {
        lemma_connections_bounded(ls.drop_first(), topo);
    }
}

/// Every listed connection is counted under exactly one offload status, and no more
/// connections are listed than the table has entries.
pub proof fn law_stats_partition(
    max_text: Option<Seq<char>>,
    table: Option<Seq<Seq<char>>>,
    topo: Map<Seq<char>, EndpointType>,
)
    ensures
        ({
            let s = stats_of(max_text, table, topo);
            &&& s.cpu + s.software + s.hardware == s.connections.len()
            &&& s.connections.len() <= s.total
        }),
{
    match table {
        Some(ls) => {
            lemma_counts_sum(connections_of(ls, topo));
            lemma_connections_bounded(ls, topo);
        },
        None => {},
    }
}

/// The connection limit is the limit text, trimmed, read as a 32-bit number; 16384 when the
/// text is absent or no such number. It does not depend on the table.
pub proof fn law_stats_limit(
    max_text: Option<Seq<char>>,
    table: Option<Seq<Seq<char>>>,
    topo: Map<Seq<char>, EndpointType>,
)
    ensures
        stats_of(max_text, table, topo).max == match max_text {
            Some(t) => match parse_bounded(trim(t), false, 0xffff_ffff) {
                Some(v) => v,
                None => 16384,
            },
            None => 16384,
        },
{
}

/// The number of lines of `ls` that describe a connection (six words or more) and pass
/// `tag`.
pub open spec fn count_lines_where(ls: Seq<Seq<char>>, tag: spec_fn(Seq<char>) -> bool) -> nat
    decreases ls.len(),
{
    if ls.len() == 0 {
        0
    } else {
        (if tokens(ls[0]).len() >= 6 && tag(ls[0]) {
            1nat
        } else {
            0nat
        }) + count_lines_where(ls.drop_first(), tag)
    }
}

/// A line tagged as offloaded to the PPE.
pub open spec fn hw_tagged(l: Seq<char>) -> bool {
    contains(l, "[HW_OFFLOAD]"@)
}

/// A line tagged as in software flow offloading only.
pub open spec fn sw_tagged(l: Seq<char>) -> bool {
    contains(l, "[OFFLOAD]"@) && !contains(l, "[HW_OFFLOAD]"@)
}

/// A line with neither offload tag.
pub open spec fn untagged(l: Seq<char>) -> bool {
    !contains(l, "[OFFLOAD]"@) && !contains(l, "[HW_OFFLOAD]"@)
}

/// Counting the parsed connections by status is counting the parsed lines by tag.
proof fn lemma_counts_by_tag(ls: Seq<Seq<char>>, topo: Map<Seq<char>, EndpointType>)
    ensures
        count_offload(connections_of(ls, topo), OffloadStatus::Hardware) == count_lines_where(
            ls,
            |l: Seq<char>| hw_tagged(l),
        ),
        count_offload(connections_of(ls, topo), OffloadStatus::Software) == count_lines_where(
            ls,
            |l: Seq<char>| sw_tagged(l),
        ),
        count_offload(connections_of(ls, topo), OffloadStatus::Cpu) == count_lines_where(
            ls,
            |l: Seq<char>| untagged(l),
        ),
    decreases ls.len(),
{
    if ls.len() > 0 {
        let rest = ls.drop_first();
        lemma_counts_by_tag(rest, topo);
        let tail = connections_of(rest, topo);
        match connection_of(ls[0], topo) {
            Some(c) => {
                assert((seq![c] + tail).drop_first() =~= tail);
                assert((seq![c] + tail)[0] == c);
            },
            None => {
                assert(Seq::<ConnectionView>::empty() + tail =~= tail);
            },
        }
    }
}

/// The hardware count is the number of connection lines tagged `[HW_OFFLOAD]`, the software
/// count the number tagged `[OFFLOAD]` but not `[HW_OFFLOAD]`, and the CPU count the number
/// with neither tag.
pub proof fn law_offload_counts_by_tag(
    max_text: Option<Seq<char>>,
    ls: Seq<Seq<char>>,
    topo: Map<Seq<char>, EndpointType>,
)
    ensures
        stats_of(max_text, Some(ls), topo).hardware == count_lines_where(
            ls,
            |l: Seq<char>| contains(l, "[HW_OFFLOAD]"@),
        ),
        stats_of(max_text, Some(ls), topo).software == count_lines_where(
            ls,
            |l: Seq<char>| contains(l, "[OFFLOAD]"@) && !contains(l, "[HW_OFFLOAD]"@),
        ),
        stats_of(max_text, Some(ls), topo).cpu == count_lines_where(
            ls,
            |l: Seq<char>| !contains(l, "[OFFLOAD]"@) && !contains(l, "[HW_OFFLOAD]"@),
        ),
{
    lemma_counts_by_tag(ls, topo);
    assert((|l: Seq<char>| hw_tagged(l)) =~= (|l: Seq<char>| contains(l, "[HW_OFFLOAD]"@)));
    assert((|l: Seq<char>| sw_tagged(l)) =~= (|l: Seq<char>| contains(l, "[OFFLOAD]"@)
        && !contains(l, "[HW_OFFLOAD]"@)));
    assert((|l: Seq<char>| untagged(l)) =~= (|l: Seq<char>| !contains(l, "[OFFLOAD]"@)
        && !contains(l, "[HW_OFFLOAD]"@)));
}

} // verus!
