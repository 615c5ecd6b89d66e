//! Software and hardware packet acceleration: flow offloading, PPE and WED.
use vstd::prelude::*;
use vstd::utf8::encode_utf8;
use crate::text::{
    chars_of, contains, contains_str, eq_ignore_case, eq_ignore_case_str, eq_str, ends_with,
    ends_with_str, trim, trim_ws, utf8_longer_than,
};
use super::hardware::string_views;

verus! {

/// Status of available software and hardware packet acceleration engines.
#[derive(Debug, Clone, Copy, PartialEq, Eq, Structural)]
pub struct AccelerationStatus {
    /// Indicates whether software flow offloading is active.
    pub software: bool,
    /// Indicates whether the Packet Processing Engine (PPE) hardware accelerator is active.
    pub hw_ppe: bool,
    /// Indicates whether the Wireless Ethernet Dispatcher (WED) is active.
    pub hw_wed: bool,
}

impl Default for AccelerationStatus {
    fn default() -> (r: Self)
        ensures
            !r.software && !r.hw_ppe && !r.hw_wed,
    {
        AccelerationStatus { software: false, hw_ppe: false, hw_wed: false }
    }
}

/// Raw readings of the kernel interfaces that acceleration detection consults.
pub struct AccelerationProbe {
    /// Standard output of `nft list flowtable inet fw4 ft`, when the command succeeded.
    pub flowtable: Option<String>,
    /// The nodes of [`AccelerationStatus::ppe_debugfs_paths`] that exist.
    pub ppe_nodes: Vec<String>,
    /// The content of each `wed_enable` parameter of
    /// [`AccelerationStatus::wed_param_paths`] that could be read.
    pub wed_params: Vec<String>,
    /// Each node of [`AccelerationStatus::wed_indicator_paths`] that could be read, with
    /// its content.
    pub wed_nodes: Vec<(String, String)>,
}

// ---------------------------------------------------------------------------
// Specification
// ---------------------------------------------------------------------------

/// The debugfs nodes whose presence shows an initialised PPE driver: one per PPE block
/// (three at most), in either of two directories, and the node of older kernels.
pub open spec fn ppe_candidates() -> Seq<Seq<char>> {
    seq![
        "/sys/kernel/debug/ppe0"@,
        "/sys/kernel/debug/eth_sys/ppe0"@,
        "/sys/kernel/debug/ppe1"@,
        "/sys/kernel/debug/eth_sys/ppe1"@,
        "/sys/kernel/debug/ppe2"@,
        "/sys/kernel/debug/eth_sys/ppe2"@,
        "/sys/kernel/debug/mtk_ppe"@,
    ]
}

/// The `wed_enable` parameters of the MediaTek wireless modules.
pub open spec fn wed_param_candidates() -> Seq<Seq<char>> {
    seq![
        "/sys/module/mt7915e/parameters/wed_enable"@,
        "/sys/module/mt798x_wmac/parameters/wed_enable"@,
        "/sys/module/mt7986_wmac/parameters/wed_enable"@,
        "/sys/module/mt7996e/parameters/wed_enable"@,
        "/sys/module/mt7615e/parameters/wed_enable"@,
        "/sys/module/mt7622/parameters/wed_enable"@,
        "/sys/module/mt76_connac/parameters/wed_enable"@,
    ]
}

/// The debugfs nodes that show allocated WED rings, for up to four WED blocks.
pub open spec fn wed_indicator_candidates() -> Seq<Seq<char>> {
    seq![
        "/sys/kernel/debug/wed0/txinfo"@,
        "/sys/kernel/debug/wed0/rxinfo"@,
        "/sys/kernel/debug/wed0/status"@,
        "/sys/kernel/debug/mtk_wed0/status"@,
        "/sys/kernel/debug/wed1/txinfo"@,
        "/sys/kernel/debug/wed1/rxinfo"@,
        "/sys/kernel/debug/wed1/status"@,
        "/sys/kernel/debug/mtk_wed1/status"@,
        "/sys/kernel/debug/wed2/txinfo"@,
        "/sys/kernel/debug/wed2/rxinfo"@,
        "/sys/kernel/debug/wed2/status"@,
        "/sys/kernel/debug/mtk_wed2/status"@,
        "/sys/kernel/debug/wed3/txinfo"@,
        "/sys/kernel/debug/wed3/rxinfo"@,
        "/sys/kernel/debug/wed3/status"@,
        "/sys/kernel/debug/mtk_wed3/status"@,
    ]
}

/// Whether some existing node is one of the PPE nodes.
pub open spec fn ppe_loaded(present: Seq<Seq<char>>) -> bool {
    exists|i: int| 0 <= i < present.len() && ppe_candidates().contains(#[trigger] present[i])
}

/// A `wed_enable` value that disables WED: `N` (in either case) or `0`, once trimmed.
pub open spec fn wed_disables(v: Seq<char>) -> bool {
    eq_ignore_case(trim(v), "n"@) || trim(v) == "0"@
}

/// WED is allowed unless some module parameter disables it.
pub open spec fn wed_allowed(values: Seq<Seq<char>>) -> bool {
    forall|i: int| 0 <= i < values.len() ==> !wed_disables(#[trigger] values[i])
}

/// Whether a WED debugfs node shows active rings: its trimmed content is not empty and,
/// for a `status` node, reports `status: 1` or `state: ACTIVE`; for another node, is longer
/// than ten bytes.
pub open spec fn wed_node_active(path: Seq<char>, content: Seq<char>) -> bool {
    let c = trim(content);
    c.len() > 0 && if ends_with(path, "status"@) {
        contains(c, "status: 1"@) || contains(c, "state: ACTIVE"@)
    } else {
        encode_utf8(c).len() > 10
    }
}

/// Whether some read WED node shows active rings.
pub open spec fn some_wed_node_active(nodes: Seq<(Seq<char>, Seq<char>)>) -> bool {
    exists|i: int| 0 <= i < nodes.len() && wed_node_active(#[trigger] nodes[i].0, nodes[i].1)
}

/// The views of path and content pairs.
pub open spec fn pair_views(v: Seq<(String, String)>) -> Seq<(Seq<char>, Seq<char>)> {
    v.map_values(|p: (String, String)| (p.0@, p.1@))
}

/// The acceleration status that a set of readings shows.
pub open spec fn status_of(p: AccelerationProbe) -> AccelerationStatus {
    let software = p.flowtable is Some;
    let hw_flag = match p.flowtable {
        Some(out) => contains(out@, "flags offload"@),
        None => false,
    };
    AccelerationStatus {
        software,
        hw_ppe: software && hw_flag && ppe_loaded(string_views(p.ppe_nodes@)),
        hw_wed: wed_allowed(string_views(p.wed_params@)) && some_wed_node_active(
            pair_views(p.wed_nodes@),
        ),
    }
}

// ---------------------------------------------------------------------------
// Implementation
// ---------------------------------------------------------------------------

/// Whether `s` is one of `lits`.
fn is_one_of(s: &str, lits: &Vec<&'static str>) -> (r: bool)
    ensures
        r == lits@.map_values(|l: &'static str| l@).contains(s@),
{
    let ghost all = lits@.map_values(|l: &'static str| l@);
    let v = chars_of(s);
    let mut i: usize = 0;
    while i < lits.len()
        invariant
            i <= lits.len(),
            v@ == s@,
            all == lits@.map_values(|l: &'static str| l@),
            forall|k: int| 0 <= k < i ==> all[k] != s@,
        decreases lits.len() - i,
    {
        if eq_str(&v, lits[i]) {
            assert(all[i as int] == s@);
            return true;
        }
        i = i + 1;
    }
    proof {
        if all.contains(s@) {
            let k = choose|k: int| 0 <= k < all.len() && all[k] == s@;
            assert(all[k] != s@);
        }
    }
    false
}

impl AccelerationStatus {
    /// The debugfs nodes that show an initialised PPE driver, in the order they are tried.
    pub fn ppe_debugfs_paths() -> (r: Vec<&'static str>)
        ensures
            r@.map_values(|s: &'static str| s@) == ppe_candidates(),
    {
        let r = vec![
            "/sys/kernel/debug/ppe0",
            "/sys/kernel/debug/eth_sys/ppe0",
            "/sys/kernel/debug/ppe1",
            "/sys/kernel/debug/eth_sys/ppe1",
            "/sys/kernel/debug/ppe2",
            "/sys/kernel/debug/eth_sys/ppe2",
            "/sys/kernel/debug/mtk_ppe",
        ];
        assert(r@.map_values(|s: &'static str| s@) =~= ppe_candidates());
        r
    }

    /// The `wed_enable` parameters of the MediaTek wireless modules.
    pub fn wed_param_paths() -> (r: Vec<&'static str>)
        ensures
            r@.map_values(|s: &'static str| s@) == wed_param_candidates(),
    {
        let r = vec![
            "/sys/module/mt7915e/parameters/wed_enable",
            "/sys/module/mt798x_wmac/parameters/wed_enable",
            "/sys/module/mt7986_wmac/parameters/wed_enable",
            "/sys/module/mt7996e/parameters/wed_enable",
            "/sys/module/mt7615e/parameters/wed_enable",
            "/sys/module/mt7622/parameters/wed_enable",
            "/sys/module/mt76_connac/parameters/wed_enable",
        ];
        assert(r@.map_values(|s: &'static str| s@) =~= wed_param_candidates());
        r
    }

    /// The WED debugfs nodes, in the order they are read.
    pub fn wed_indicator_paths() -> (r: Vec<&'static str>)
        ensures
            r@.map_values(|s: &'static str| s@) == wed_indicator_candidates(),
    {
        let r = vec![
            "/sys/kernel/debug/wed0/txinfo",
            "/sys/kernel/debug/wed0/rxinfo",
            "/sys/kernel/debug/wed0/status",
            "/sys/kernel/debug/mtk_wed0/status",
            "/sys/kernel/debug/wed1/txinfo",
            "/sys/kernel/debug/wed1/rxinfo",
            "/sys/kernel/debug/wed1/status",
            "/sys/kernel/debug/mtk_wed1/status",
            "/sys/kernel/debug/wed2/txinfo",
            "/sys/kernel/debug/wed2/rxinfo",
            "/sys/kernel/debug/wed2/status",
            "/sys/kernel/debug/mtk_wed2/status",
            "/sys/kernel/debug/wed3/txinfo",
            "/sys/kernel/debug/wed3/rxinfo",
            "/sys/kernel/debug/wed3/status",
            "/sys/kernel/debug/mtk_wed3/status",
        ];
        assert(r@.map_values(|s: &'static str| s@) =~= wed_indicator_candidates());
        r
    }

    /// Reads the `fw4` flowtable listing: whether the flowtable exists (the listing command
    /// succeeded), and whether its `flags offload` parameter pushes flows to the PPE.
    pub fn check_nftables_flowtable(output: &Option<String>) -> (r: (bool, bool))
        ensures
            r.0 == (*output is Some),
            r.1 == match *output {
                Some(out) => contains(out@, "flags offload"@),
                None => false,
            },
    {
        match output {
            Some(out) => {
                let v = chars_of(out.as_str());
                (true, contains_str(&v, "flags offload"))
            },
            None => (false, false),
        }
    }

    /// Whether the PPE driver is initialised: some existing node is a PPE node.
    pub fn is_ppe_driver_loaded(present: &Vec<String>) -> (r: bool)
        ensures
            r == ppe_loaded(string_views(present@)),
    {
        let ghost all = string_views(present@);
        let cands = Self::ppe_debugfs_paths();
        let mut i: usize = 0;
        while i < present.len()
            invariant
                i <= present.len(),
                all == string_views(present@),
                cands@.map_values(|s: &'static str| s@) == ppe_candidates(),
                forall|k: int| 0 <= k < i ==> !ppe_candidates().contains(#[trigger] all[k]),
            decreases present.len() - i,
        {
            if is_one_of(present[i].as_str(), &cands) {
                assert(ppe_candidates().contains(all[i as int]));
                return true;
            }
            i = i + 1;
        }
        false
    }

    /// Whether the wireless modules allow WED: no `wed_enable` value disables it.
    pub fn is_wed_allowed_by_module(values: &Vec<String>) -> (r: bool)
        ensures
            r == wed_allowed(string_views(values@)),
    {
        let ghost all = string_views(values@);
        let mut i: usize = 0;
        while i < values.len()
            invariant
                i <= values.len(),
                all == string_views(values@),
                forall|k: int| 0 <= k < i ==> !wed_disables(#[trigger] all[k]),
            decreases values.len() - i,
        {
            let v = trim_ws(&chars_of(values[i].as_str()));
            if eq_ignore_case_str(&v, "n") || eq_str(&v, "0") {
                assert(wed_disables(all[i as int]));
                return false;
            }
            i = i + 1;
        }
        true
    }

    /// Whether one WED debugfs node shows active rings.
    pub fn wed_indicator_active(path: &str, content: &str) -> (r: bool)
        ensures
            r == wed_node_active(path@, content@),
    {
        let c = trim_ws(&chars_of(content));
        if c.len() == 0 {
            return false;
        }
        let p = chars_of(path);
        if ends_with_str(&p, "status") {
            contains_str(&c, "status: 1") || contains_str(&c, "state: ACTIVE")
        } else {
            utf8_longer_than(&c, 10)
        }
    }

    /// Whether WED is active: the modules allow it and some read node shows active rings.
    pub fn check_wed(params: &Vec<String>, nodes: &Vec<(String, String)>) -> (r: bool)
        ensures
            r == (wed_allowed(string_views(params@)) && some_wed_node_active(
                pair_views(nodes@),
            )),
    {
        if !Self::is_wed_allowed_by_module(params) {
            return false;
        }
        let ghost all = pair_views(nodes@);
        let mut i: usize = 0;
        while i < nodes.len()
            invariant
                i <= nodes.len(),
                all == pair_views(nodes@),
                wed_allowed(string_views(params@)),
                forall|k: int| 0 <= k < i ==> !wed_node_active(#[trigger] all[k].0, all[k].1),
            decreases nodes.len() - i,
        {
            let (path, content) = &nodes[i];
            assert(all[i as int] == (nodes@[i as int].0@, nodes@[i as int].1@));
            if Self::wed_indicator_active(path.as_str(), content.as_str()) {
                assert(wed_node_active(all[i as int].0, all[i as int].1));
                return true;
            }
            i = i + 1;
        }
        false
    }

    /// The acceleration status that the readings show. PPE offloading needs software flow
    /// offloading, the hardware offload flag of the flowtable and an initialised PPE driver.
    pub fn check_system(probe: &AccelerationProbe) -> (r: Self)
        ensures
            r == status_of(*probe),
            r.hw_ppe ==> r.software,
    {
        let (sw_active, hw_flag_present) = Self::check_nftables_flowtable(&probe.flowtable);
        let hw_ppe = sw_active && hw_flag_present && Self::is_ppe_driver_loaded(
            &probe.ppe_nodes,
        );
        let hw_wed = Self::check_wed(&probe.wed_params, &probe.wed_nodes);
        AccelerationStatus { software: sw_active, hw_ppe, hw_wed }
    }
}

/// PPE offloading is never reported without software flow offloading.
pub proof fn law_ppe_needs_software(p: AccelerationProbe)
    ensures
        status_of(p).hw_ppe ==> status_of(p).software,
{
}

/// A module parameter that disables WED disables it whatever the debugfs nodes show.
pub proof fn law_disabled_module_disables_wed(p: AccelerationProbe, i: int)
    requires
        0 <= i < p.wed_params@.len(),
        wed_disables(p.wed_params@[i]@),
    ensures
        !status_of(p).hw_wed,
{
    assert(string_views(p.wed_params@)[i] == p.wed_params@[i]@);
}

/// Any one of the PPE nodes (`ppe0` to `ppe2`, directly under debugfs or under `eth_sys`, or
/// the older `mtk_ppe`) shows an initialised PPE driver, and no node at all shows none.
pub proof fn law_ppe_nodes()
    ensures
        ppe_loaded(seq!["/sys/kernel/debug/ppe0"@]),
        ppe_loaded(seq!["/sys/kernel/debug/eth_sys/ppe0"@]),
        ppe_loaded(seq!["/sys/kernel/debug/ppe1"@]),
        ppe_loaded(seq!["/sys/kernel/debug/eth_sys/ppe1"@]),
        ppe_loaded(seq!["/sys/kernel/debug/ppe2"@]),
        ppe_loaded(seq!["/sys/kernel/debug/eth_sys/ppe2"@]),
        ppe_loaded(seq!["/sys/kernel/debug/mtk_ppe"@]),
        !ppe_loaded(Seq::<Seq<char>>::empty()),
{
    assert(ppe_candidates()[0] == seq!["/sys/kernel/debug/ppe0"@][0]);
    assert(ppe_candidates()[1] == seq!["/sys/kernel/debug/eth_sys/ppe0"@][0]);
    assert(ppe_candidates()[2] == seq!["/sys/kernel/debug/ppe1"@][0]);
    assert(ppe_candidates()[3] == seq!["/sys/kernel/debug/eth_sys/ppe1"@][0]);
    assert(ppe_candidates()[4] == seq!["/sys/kernel/debug/ppe2"@][0]);
    assert(ppe_candidates()[5] == seq!["/sys/kernel/debug/eth_sys/ppe2"@][0]);
    assert(ppe_candidates()[6] == seq!["/sys/kernel/debug/mtk_ppe"@][0]);
}

} // verus!
