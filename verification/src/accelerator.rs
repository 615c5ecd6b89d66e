//! Acceleration support read from the presence of kernel module and debugfs nodes.
use vstd::prelude::*;
use crate::platform::hardware::string_views;
use crate::text::{chars_of, eq_str};

verus! {

/// Status of available software and hardware packet acceleration engines.
#[derive(Debug, Clone, Copy, PartialEq, Eq, Structural)]
pub struct AccelerationStatus {
    pub software: bool,
    pub hw_ppe: bool,
    pub hw_wed: bool,
}

impl Default for AccelerationStatus {
    fn default() -> (r: Self)
        ensures
            !r.software && !r.hw_ppe && !r.hw_wed,
    {
        AccelerationStatus { software: false, hw_ppe: false, hw_wed: false }
    }
}

/// The software flow offloading module (`nf_flow_table`).
pub open spec fn flow_table_module() -> Seq<char> {
    "/sys/module/nf_flow_table"@
}

/// The PPE module node.
pub open spec fn ppe_module() -> Seq<char> {
    "/sys/module/mtk_ppe"@
}

/// The PPE debugfs node.
pub open spec fn ppe_debugfs() -> Seq<char> {
    "/sys/kernel/debug/mtk_ppe"@
}

/// The `mt76` WED debugfs node.
pub open spec fn wed_debugfs() -> Seq<char> {
    "/sys/kernel/debug/mt76/wed"@
}

/// The `mt76` module's `wed_enable` parameter.
pub open spec fn wed_param() -> Seq<char> {
    "/sys/module/mt76/parameters/wed_enable"@
}

/// The nodes whose presence the detection reads, in order.
pub open spec fn probed_nodes() -> Seq<Seq<char>> {
    seq![flow_table_module(), ppe_module(), ppe_debugfs(), wed_debugfs(), wed_param()]
}

/// The status that a list of existing nodes shows.
pub open spec fn status_of(present: Seq<Seq<char>>) -> AccelerationStatus {
    AccelerationStatus {
        software: present.contains(flow_table_module()),
        hw_ppe: present.contains(ppe_module()) || present.contains(ppe_debugfs()),
        hw_wed: present.contains(wed_debugfs()) || present.contains(wed_param()),
    }
}

/// Whether `path` is listed in `present`.
fn listed(present: &Vec<String>, path: &str) -> (r: bool)
    ensures
        r == string_views(present@).contains(path@),
{
    let ghost all = string_views(present@);
    let mut i: usize = 0;
    while i < present.len()
        invariant
            i <= present.len(),
            all == string_views(present@),
            forall|k: int| 0 <= k < i ==> all[k] != path@,
        decreases present.len() - i,
    {
        if eq_str(&chars_of(present[i].as_str()), path) {
            assert(all[i as int] == path@);
            return true;
        }
        i = i + 1;
    }
    proof {
        if all.contains(path@) {
            let k = choose|k: int| 0 <= k < all.len() && all[k] == path@;
            assert(all[k] != path@);
        }
    }
    false
}

impl AccelerationStatus {
    /// The nodes whose presence the detection reads.
    pub fn probe_paths() -> (r: Vec<&'static str>)
        ensures
            r@.map_values(|s: &'static str| s@) == probed_nodes(),
    {
        let r = vec![
            "/sys/module/nf_flow_table",
            "/sys/module/mtk_ppe",
            "/sys/kernel/debug/mtk_ppe",
            "/sys/kernel/debug/mt76/wed",
            "/sys/module/mt76/parameters/wed_enable",
        ];
        assert(r@.map_values(|s: &'static str| s@) =~= probed_nodes());
        r
    }

    /// The status shown by the existing nodes among [`AccelerationStatus::probe_paths`].
    pub fn check_system(present: &Vec<String>) -> (r: Self)
        ensures
            r == status_of(string_views(present@)),
    {
        AccelerationStatus {
            software: Self::check_software_offload(present),
            hw_ppe: Self::check_ppe(present),
            hw_wed: Self::check_wed(present),
        }
    }

    /// Software flow offloading: the `nf_flow_table` module is loaded.
    pub fn check_software_offload(present: &Vec<String>) -> (r: bool)
        ensures
            r == string_views(present@).contains(flow_table_module()),
    {
        listed(present, "/sys/module/nf_flow_table")
    }

    /// PPE offloading: the PPE module or its debugfs node is present.
    pub fn check_ppe(present: &Vec<String>) -> (r: bool)
        ensures
            r == (string_views(present@).contains(ppe_module()) || string_views(
                present@,
            ).contains(ppe_debugfs())),
    {
        listed(present, "/sys/module/mtk_ppe") || listed(present, "/sys/kernel/debug/mtk_ppe")
    }

    /// WED offloading: the `mt76` WED debugfs node or its `wed_enable` parameter is present.
    pub fn check_wed(present: &Vec<String>) -> (r: bool)
        ensures
            r == (string_views(present@).contains(wed_debugfs()) || string_views(
                present@,
            ).contains(wed_param())),
    {
        listed(present, "/sys/kernel/debug/mt76/wed") || listed(
            present,
            "/sys/module/mt76/parameters/wed_enable",
        )
    }
}

} // verus!
