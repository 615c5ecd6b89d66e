//! The System on Chip models of MediaTek router platforms and their capabilities.
use vstd::prelude::*;
use crate::text::{
    ascii_lower, chars_of, contains, contains_str, eq_ignore_case, eq_ignore_case_str, index_of,
    lemma_contains_same_len, lemma_index_of, lines, lowercase, lowercase_chars, parse_bounded,
    parse_unsigned, split_lines, split_once, split_once_char, strip_prefix, strip_prefix_str,
    to_ascii_lower, trim, trim_both, trim_nul, trim_ws, views,
};

verus! {

/// Represents the detected System on Chip (SoC) model of the device.
#[derive(Debug, PartialEq, Eq, Structural, Clone, Copy)]
pub enum SocModel {
    /// MediaTek Filogic 880 (Wi-Fi 7).
    Mt7988,
    /// MediaTek Filogic 850 (Wi-Fi 7 entry).
    Mt7987,
    /// MediaTek Filogic 830 (Wi-Fi 6/6E).
    Mt7986,
    /// MediaTek Filogic 820 (Wi-Fi 6).
    Mt7981,
    /// MediaTek Filogic 800 (Wi-Fi 6 / early ARM).
    Mt7622,
    /// MediaTek MT7629 (Wi-Fi 5).
    Mt7629,
    /// MediaTek legacy (Wi-Fi 5 / MIPS).
    Mt7621,
    /// MediaTek MT7628 (Wi-Fi 4/5 budget).
    Mt7628,
    /// MediaTek MT7620 (Wi-Fi 4/5 budget).
    Mt7620,
    /// Not recognised.
    Unknown,
}

impl Default for SocModel {
    fn default() -> (r: Self)
        ensures
            r == SocModel::Unknown,
    {
        SocModel::Unknown
    }
}

/// The model named in (lower-cased) device tree `compatible` text: the first chip
/// identifier found, tried from the newest chip to the oldest.
pub open spec fn soc_of_text(t: Seq<char>) -> SocModel {
    if contains(t, "mt7988"@) {
        SocModel::Mt7988
    } else if contains(t, "mt7987"@) {
        SocModel::Mt7987
    } else if contains(t, "mt7986"@) {
        SocModel::Mt7986
    } else if contains(t, "mt7981"@) {
        SocModel::Mt7981
    } else if contains(t, "mt7622"@) {
        SocModel::Mt7622
    } else if contains(t, "mt7629"@) {
        SocModel::Mt7629
    } else if contains(t, "mt7621"@) {
        SocModel::Mt7621
    } else if contains(t, "mt7628"@) {
        SocModel::Mt7628
    } else if contains(t, "mt7620"@) {
        SocModel::Mt7620
    } else {
        SocModel::Unknown
    }
}

/// The model detected from the device tree `compatible` node's content (as text), absent
/// when the node cannot be read.
pub open spec fn soc_detected(compatible: Option<Seq<char>>) -> SocModel {
    match compatible {
        Some(t) => soc_of_text(lowercase(trim_nul(t))),
        None => SocModel::Unknown,
    }
}

/// The chip identifier of each known model.
pub open spec fn chip_id(m: SocModel) -> Seq<char> {
    match m {
        SocModel::Mt7988 => "mt7988"@,
        SocModel::Mt7987 => "mt7987"@,
        SocModel::Mt7986 => "mt7986"@,
        SocModel::Mt7981 => "mt7981"@,
        SocModel::Mt7622 => "mt7622"@,
        SocModel::Mt7629 => "mt7629"@,
        SocModel::Mt7621 => "mt7621"@,
        SocModel::Mt7628 => "mt7628"@,
        SocModel::Mt7620 => "mt7620"@,
        SocModel::Unknown => seq![],
    }
}

/// The CPU identification fields gathered from `/proc/cpuinfo`.
pub struct CpuIds {
    pub implementer: Option<nat>,
    pub part: Option<nat>,
    pub mips: Option<Seq<char>>,
}

/// A hexadecimal `/proc/cpuinfo` value (with an optional `0x` or `0X` prefix) as a 16-bit
/// number.
pub open spec fn hex_field(v: Seq<char>) -> Option<nat> {
    let h = match strip_prefix(v, "0x"@) {
        Some(t) => t,
        None => match strip_prefix(v, "0X"@) {
            Some(t) => t,
            None => v,
        },
    };
    parse_bounded(h, true, 65535)
}

/// The MIPS core named by a `cpu model` / `system type` value, or `prev` when it names none.
pub open spec fn mips_name(value: Seq<char>, prev: Option<Seq<char>>) -> Option<Seq<char>> {
    let l = ascii_lower(value);
    if contains(l, "1004kc"@) {
        Some("MIPS 1004Kc"@)
    } else if contains(l, "24kec"@) {
        Some("MIPS 24KEc"@)
    } else if contains(l, "mips"@) {
        Some("MIPS"@)
    } else {
        prev
    }
}

/// The fields after reading one `key: value` line (keys compared ignoring ASCII case; a
/// later line overrides an earlier one).
pub open spec fn scan_line(st: CpuIds, line: Seq<char>) -> CpuIds {
    match split_once(line, ':') {
        None => st,
        Some((k, v)) => {
            let key = trim(k);
            let value = trim(v);
            if eq_ignore_case(key, "CPU implementer"@) {
                CpuIds { implementer: hex_field(value), ..st }
            } else if eq_ignore_case(key, "CPU part"@) {
                CpuIds { part: hex_field(value), ..st }
            } else if eq_ignore_case(key, "cpu model"@) || eq_ignore_case(key, "system type"@) {
                CpuIds { mips: mips_name(value, st.mips), ..st }
            } else {
                st
            }
        },
    }
}

/// The fields after reading the lines in order.
pub open spec fn scan_lines(ls: Seq<Seq<char>>) -> CpuIds
    decreases ls.len(),
{
    if ls.len() == 0 {
        CpuIds { implementer: None, part: None, mips: None }
    } else {
        scan_line(scan_lines(ls.drop_last()), ls.last())
    }
}

/// The ARM Cortex core with the given part number.
pub open spec fn arm_core(part: nat) -> Option<Seq<char>> {
    if part == 0xc07 {
        Some("Cortex-A7"@)
    } else if part == 0xd03 {
        Some("Cortex-A53"@)
    } else if part == 0xd04 {
        Some("Cortex-A35"@)
    } else if part == 0xd05 {
        Some("Cortex-A55"@)
    } else if part == 0xd08 {
        Some("Cortex-A72"@)
    } else if part == 0xd09 {
        Some("Cortex-A73"@)
    } else if part == 0xd0a {
        Some("Cortex-A75"@)
    } else if part == 0xd0b {
        Some("Cortex-A76"@)
    } else if part == 0xd0c {
        Some("Cortex-A77"@)
    } else if part == 0xd41 {
        Some("Cortex-A78"@)
    } else {
        None
    }
}

/// The CPU microarchitecture named by `/proc/cpuinfo`: the ARM core when the implementer
/// is ARM Ltd (0x41) and a part number is given, otherwise the MIPS core, if any.
pub open spec fn cpu_arch_of(cpuinfo: Seq<char>) -> Option<Seq<char>> {
    let st = scan_lines(lines(cpuinfo));
    if st.implementer == Some(0x41nat) && st.part is Some {
        arm_core(st.part->0)
    } else {
        st.mips
    }
}

fn hex_field_of(v: &Vec<char>) -> (r: Option<u64>)
    ensures
        r matches Some(x) ==> hex_field(v@) == Some(x as nat),
        r is None ==> hex_field(v@) is None,
{
    let h = match strip_prefix_str(v, "0x") {
        Some(t) => t,
        None => match strip_prefix_str(v, "0X") {
            Some(t) => t,
            None => crate::text::slice_of(v, 0, v.len()),
        },
    };
    assert(strip_prefix(v@, "0x"@) is None && strip_prefix(v@, "0X"@) is None ==> h@ =~= v@);
    parse_unsigned(&h, true, 65535)
}

fn mips_name_of(value: &Vec<char>, prev: Option<&'static str>) -> (r: Option<&'static str>)
    ensures
        mips_name(
            value@,
            match prev {
                Some(p) => Some(p@),
                None => None,
            },
        ) == match r {
            Some(p) => Some(p@),
            None => None,
        },
{
    let l = to_ascii_lower(value);
    if contains_str(&l, "1004kc") {
        Some("MIPS 1004Kc")
    } else if contains_str(&l, "24kec") {
        Some("MIPS 24KEc")
    } else if contains_str(&l, "mips") {
        Some("MIPS")
    } else {
        prev
    }
}

fn arm_core_of(part: u64) -> (r: Option<&'static str>)
    ensures
        arm_core(part as nat) == match r {
            Some(p) => Some(p@),
            None => None,
        },
{
    match part {
        0xc07 => Some("Cortex-A7"),
        0xd03 => Some("Cortex-A53"),
        0xd04 => Some("Cortex-A35"),
        0xd05 => Some("Cortex-A55"),
        0xd08 => Some("Cortex-A72"),
        0xd09 => Some("Cortex-A73"),
        0xd0a => Some("Cortex-A75"),
        0xd0b => Some("Cortex-A76"),
        0xd0c => Some("Cortex-A77"),
        0xd41 => Some("Cortex-A78"),
        _ => None,
    }
}

/// The view of an optional static text.
pub open spec fn opt_view(o: Option<&'static str>) -> Option<Seq<char>> {
    match o {
        Some(p) => Some(p@),
        None => None,
    }
}

/// The view of an optional number.
pub open spec fn opt_nat(o: Option<u64>) -> Option<nat> {
    match o {
        Some(x) => Some(x as nat),
        None => None,
    }
}

impl SocModel {
    /// Detects the SoC model from the content of the device tree `compatible` node (text of
    /// NUL-separated strings; absent when the node cannot be read).
    pub fn detect(compatible: Option<&str>) -> (r: SocModel)
        ensures
            r == soc_detected(
                match compatible {
                    Some(t) => Some(t@),
                    None => None,
                },
            ),
    {
        match compatible {
            Some(t) => {
                let trimmed = trim_both(&chars_of(t), true);
                let content = lowercase_chars(&trimmed);
                Self::from_text(&content)
            },
            None => SocModel::Unknown,
        }
    }

    /// The model named in lower-cased `compatible` text (see [`soc_of_text`]).
    pub fn from_text(t: &Vec<char>) -> (r: SocModel)
        ensures
            r == soc_of_text(t@),
    {
        if contains_str(t, "mt7988") {
            SocModel::Mt7988
        } else if contains_str(t, "mt7987") {
            SocModel::Mt7987
        } else if contains_str(t, "mt7986") {
            SocModel::Mt7986
        } else if contains_str(t, "mt7981") {
            SocModel::Mt7981
        } else if contains_str(t, "mt7622") {
            SocModel::Mt7622
        } else if contains_str(t, "mt7629") {
            SocModel::Mt7629
        } else if contains_str(t, "mt7621") {
            SocModel::Mt7621
        } else if contains_str(t, "mt7628") {
            SocModel::Mt7628
        } else if contains_str(t, "mt7620") {
            SocModel::Mt7620
        } else {
            SocModel::Unknown
        }
    }

    /// Returns a human-readable display name for the UI.
    pub fn display_name(&self) -> (r: &'static str)
        ensures
            r@ == match *self {
                SocModel::Mt7988 => "MT7988 (Filogic 880)"@,
                SocModel::Mt7987 => "MT7987 (Filogic 850)"@,
                SocModel::Mt7986 => "MT7986 (Filogic 830)"@,
                SocModel::Mt7981 => "MT7981 (Filogic 820)"@,
                SocModel::Mt7622 => "MT7622 (Filogic 800)"@,
                SocModel::Mt7629 => "MT7629"@,
                SocModel::Mt7621 => "MT7621 (MIPS)"@,
                SocModel::Mt7628 => "MT7628 (MIPS)"@,
                SocModel::Mt7620 => "MT7620 (MIPS)"@,
                SocModel::Unknown => "Unknown SoC"@,
            },
    {
        match self {
            SocModel::Mt7988 => "MT7988 (Filogic 880)",
            SocModel::Mt7987 => "MT7987 (Filogic 850)",
            SocModel::Mt7986 => "MT7986 (Filogic 830)",
            SocModel::Mt7981 => "MT7981 (Filogic 820)",
            SocModel::Mt7622 => "MT7622 (Filogic 800)",
            SocModel::Mt7629 => "MT7629",
            SocModel::Mt7621 => "MT7621 (MIPS)",
            SocModel::Mt7628 => "MT7628 (MIPS)",
            SocModel::Mt7620 => "MT7620 (MIPS)",
            SocModel::Unknown => "Unknown SoC",
        }
    }

    /// Returns the CPU architecture and core count of the SoC.
    pub fn architecture(&self) -> (r: &'static str)
        ensures
            r@ == arch_text(*self),
    {
        match self {
            SocModel::Mt7988 => "4× Cortex-A73",
            SocModel::Mt7987 => "4× Cortex-A53",
            SocModel::Mt7986 => "4× Cortex-A53",
            SocModel::Mt7981 => "2× Cortex-A53",
            SocModel::Mt7622 => "2× Cortex-A53",
            SocModel::Mt7629 => "2× Cortex-A7",
            SocModel::Mt7621 => "2× MIPS1004Kc",
            SocModel::Mt7628 => "1× MIPS24KEc",
            SocModel::Mt7620 => "1× MIPS24KEc",
            SocModel::Unknown => "Unknown",
        }
    }

    /// Parses the CPU microarchitecture from `/proc/cpuinfo` output.
    pub fn parse_cpu_arch_from_cpuinfo(cpuinfo: &str) -> (r: Option<&'static str>)
        ensures
            opt_view(r) == cpu_arch_of(cpuinfo@),
    {
        let ls = split_lines(&chars_of(cpuinfo));
        let ghost lv = views(ls@);
        let mut implementer: Option<u64> = None;
        let mut part: Option<u64> = None;
        let mut mips_model: Option<&'static str> = None;
        let mut i: usize = 0;
        while i < ls.len()
            invariant
                i <= ls.len(),
                lv == views(ls@),
                scan_lines(lv.take(i as int)) == (CpuIds {
                    implementer: opt_nat(implementer),
                    part: opt_nat(part),
                    mips: opt_view(mips_model),
                }),
            decreases ls.len() - i,
        {
            assert(lv.take(i + 1).drop_last() =~= lv.take(i as int));
            assert(lv.take(i + 1).last() == ls@[i as int]@);
            match split_once_char(&ls[i], ':') {
                Some((k, v)) => {
                    let key = trim_ws(&k);
                    let value = trim_ws(&v);
                    if eq_ignore_case_str(&key, "CPU implementer") {
                        implementer = hex_field_of(&value);
                    } else if eq_ignore_case_str(&key, "CPU part") {
                        part = hex_field_of(&value);
                    } else if eq_ignore_case_str(&key, "cpu model") || eq_ignore_case_str(
                        &key,
                        "system type",
                    ) {
                        mips_model = mips_name_of(&value, mips_model);
                    }
                },
                None => {},
            }
            i = i + 1;
        }
        assert(lv.take(i as int) =~= lv);
        if implementer == Some(0x41u64) {
            if let Some(part_num) = part {
                return arm_core_of(part_num);
            }
        }
        mips_model
    }

    /// Returns the maximum CPU core frequency in Hertz (Hz); 0 if the SoC model is unknown.
    pub fn core_frequency_hz(&self) -> (r: u64)
        ensures
            r == core_hz(*self),
            r == 0 <==> *self == SocModel::Unknown,
    {
        match self {
            SocModel::Mt7988 => 1_800_000_000,
            SocModel::Mt7987 => 2_000_000_000,
            SocModel::Mt7986 => 2_000_000_000,
            SocModel::Mt7622 => 1_350_000_000,
            SocModel::Mt7981 => 1_300_000_000,
            SocModel::Mt7629 => 1_250_000_000,
            SocModel::Mt7621 => 880_000_000,
            SocModel::Mt7628 => 580_000_000,
            SocModel::Mt7620 => 600_000_000,
            SocModel::Unknown => 0,
        }
    }

    /// Returns the number of Packet Processing Engines (PPE) available on the SoC.
    pub fn ppe_count(&self) -> (r: usize)
        ensures
            r == ppe_of(*self),
    {
        match self {
            SocModel::Mt7988 => 3,
            SocModel::Mt7987 | SocModel::Mt7986 => 2,
            SocModel::Mt7981 => 2,
            SocModel::Mt7622 | SocModel::Mt7629 | SocModel::Mt7621 | SocModel::Mt7628
            | SocModel::Mt7620 => 1,
            SocModel::Unknown => 0,
        }
    }

    /// Returns the number of Wireless Ethernet Dispatcher (WED) modules available on the SoC.
    pub fn wed_count(&self) -> (r: usize)
        ensures
            r == wed_of(*self),
    {
        match self {
            SocModel::Mt7988 | SocModel::Mt7987 | SocModel::Mt7986 | SocModel::Mt7622 => 2,
            SocModel::Mt7981 => 1,
            SocModel::Mt7629 | SocModel::Mt7621 | SocModel::Mt7628 | SocModel::Mt7620 => 0,
            SocModel::Unknown => 0,
        }
    }

    /// Indicates whether the network subsystem supports Receive Side Scaling (RSS).
    pub fn has_rss(&self) -> (r: bool)
        ensures
            r == is_filogic(*self),
    {
        match self {
            SocModel::Mt7988 | SocModel::Mt7987 | SocModel::Mt7986 | SocModel::Mt7981
            | SocModel::Mt7622 => true,
            SocModel::Mt7629 | SocModel::Mt7621 | SocModel::Mt7628 | SocModel::Mt7620
            | SocModel::Unknown => false,
        }
    }

    /// Indicates whether the SoC hardware supports IP/TCP/UDP Checksum Offload (present on
    /// every MediaTek SoC in the list).
    pub fn has_checksum_offload(&self) -> (r: bool)
        ensures
            r == (*self != SocModel::Unknown),
    {
        match self {
            SocModel::Unknown => false,
            _ => true,
        }
    }

    /// Indicates whether the SoC supports TCP Segmentation Offload (TSO) in hardware
    /// (present on every MediaTek SoC in the list).
    pub fn has_tso(&self) -> (r: bool)
        ensures
            r == (*self != SocModel::Unknown),
    {
        match self {
            SocModel::Unknown => false,
            _ => true,
        }
    }

    /// Indicates whether the network interface controller supports Multiple RX Queues.
    pub fn has_multi_rx_queues(&self) -> (r: bool)
        ensures
            r == is_filogic(*self),
    {
        match self {
            SocModel::Mt7988 | SocModel::Mt7987 | SocModel::Mt7986 | SocModel::Mt7981
            | SocModel::Mt7622 => true,
            SocModel::Mt7629 | SocModel::Mt7621 | SocModel::Mt7628 | SocModel::Mt7620
            | SocModel::Unknown => false,
        }
    }

    /// Indicates whether the SoC is equipped with a dedicated Hardware Crypto Engine.
    pub fn has_crypto_engine(&self) -> (r: bool)
        ensures
            r == (*self != SocModel::Unknown),
    {
        match self {
            SocModel::Unknown => false,
            _ => true,
        }
    }

    /// Indicates whether the SoC hardware provides acceleration for the AES cipher (all
    /// chips in the list have at least basic AES acceleration).
    pub fn has_aes_acceleration(&self) -> (r: bool)
        ensures
            r == (*self != SocModel::Unknown),
    {
        match self {
            SocModel::Unknown => false,
            _ => true,
        }
    }

    /// Indicates whether the SoC hardware provides acceleration for the SHA hashing
    /// algorithms.
    pub fn has_sha_acceleration(&self) -> (r: bool)
        ensures
            r == has_full_crypto(*self),
    {
        match self {
            SocModel::Mt7988 | SocModel::Mt7987 | SocModel::Mt7986 | SocModel::Mt7981
            | SocModel::Mt7622 | SocModel::Mt7629 | SocModel::Mt7621 => true,
            SocModel::Mt7628 | SocModel::Mt7620 | SocModel::Unknown => false,
        }
    }

    /// Indicates whether the SoC contains an integrated True Random Number Generator.
    pub fn has_trng(&self) -> (r: bool)
        ensures
            r == has_full_crypto(*self),
    {
        match self {
            SocModel::Mt7988 | SocModel::Mt7987 | SocModel::Mt7986 | SocModel::Mt7981
            | SocModel::Mt7622 | SocModel::Mt7629 | SocModel::Mt7621 => true,
            SocModel::Mt7628 | SocModel::Mt7620 | SocModel::Unknown => false,
        }
    }

    /// Indicates whether the SoC supports Secure Boot mechanisms (the ARM platforms).
    pub fn has_secure_boot(&self) -> (r: bool)
        ensures
            r == is_arm(*self),
    {
        match self {
            SocModel::Mt7988 | SocModel::Mt7987 | SocModel::Mt7986 | SocModel::Mt7981
            | SocModel::Mt7622 | SocModel::Mt7629 => true,
            SocModel::Mt7621 | SocModel::Mt7628 | SocModel::Mt7620 | SocModel::Unknown => false,
        }
    }

    /// Indicates whether the SoC supports ARM TrustZone or a Trusted Execution Environment
    /// (all Cortex-A based SoCs).
    pub fn has_trustzone(&self) -> (r: bool)
        ensures
            r == is_arm(*self),
    {
        match self {
            SocModel::Mt7988 | SocModel::Mt7987 | SocModel::Mt7986 | SocModel::Mt7981
            | SocModel::Mt7622 | SocModel::Mt7629 => true,
            SocModel::Mt7621 | SocModel::Mt7628 | SocModel::Mt7620 | SocModel::Unknown => false,
        }
    }
}

/// The architecture text of a model.
pub open spec fn arch_text(m: SocModel) -> Seq<char> {
    match m {
        SocModel::Mt7988 => "4× Cortex-A73"@,
        SocModel::Mt7987 => "4× Cortex-A53"@,
        SocModel::Mt7986 => "4× Cortex-A53"@,
        SocModel::Mt7981 => "2× Cortex-A53"@,
        SocModel::Mt7622 => "2× Cortex-A53"@,
        SocModel::Mt7629 => "2× Cortex-A7"@,
        SocModel::Mt7621 => "2× MIPS1004Kc"@,
        SocModel::Mt7628 => "1× MIPS24KEc"@,
        SocModel::Mt7620 => "1× MIPS24KEc"@,
        SocModel::Unknown => "Unknown"@,
    }
}

/// The maximum core frequency of a model in Hz (0 when unknown).
pub open spec fn core_hz(m: SocModel) -> nat {
    match m {
        SocModel::Mt7988 => 1_800_000_000,
        SocModel::Mt7987 => 2_000_000_000,
        SocModel::Mt7986 => 2_000_000_000,
        SocModel::Mt7622 => 1_350_000_000,
        SocModel::Mt7981 => 1_300_000_000,
        SocModel::Mt7629 => 1_250_000_000,
        SocModel::Mt7621 => 880_000_000,
        SocModel::Mt7628 => 580_000_000,
        SocModel::Mt7620 => 600_000_000,
        SocModel::Unknown => 0,
    }
}

/// The number of packet processing engines of a model.
pub open spec fn ppe_of(m: SocModel) -> nat {
    match m {
        SocModel::Mt7988 => 3,
        SocModel::Mt7987 | SocModel::Mt7986 | SocModel::Mt7981 => 2,
        SocModel::Unknown => 0,
        _ => 1,
    }
}

/// The number of wireless Ethernet dispatchers of a model.
pub open spec fn wed_of(m: SocModel) -> nat {
    match m {
        SocModel::Mt7988 | SocModel::Mt7987 | SocModel::Mt7986 | SocModel::Mt7622 => 2,
        SocModel::Mt7981 => 1,
        _ => 0,
    }
}

/// The modern Filogic platforms (with multi-queue RSS).
pub open spec fn is_filogic(m: SocModel) -> bool {
    m is Mt7988 || m is Mt7987 || m is Mt7986 || m is Mt7981 || m is Mt7622
}

/// The ARM (Cortex-A) platforms.
pub open spec fn is_arm(m: SocModel) -> bool {
    is_filogic(m) || m is Mt7629
}

/// The platforms with SHA acceleration and a hardware random number generator.
pub open spec fn has_full_crypto(m: SocModel) -> bool {
    is_arm(m) || m is Mt7621
}

/// The chip identifier of every known model is detected as that model.
pub proof fn law_chip_id_detected(m: SocModel)
    requires
        m != SocModel::Unknown,
    ensures
        soc_of_text(chip_id(m)) == m,
{
    match m {
        SocModel::Mt7988 => {
            reveal_strlit("mt7988");
            lemma_contains_same_len("mt7988"@, "mt7988"@);
        },
        SocModel::Mt7987 => {
            reveal_strlit("mt7987");
            reveal_strlit("mt7988");
            assert("mt7987"@[5] != "mt7988"@[5]);
            lemma_contains_same_len("mt7987"@, "mt7988"@);
            lemma_contains_same_len("mt7987"@, "mt7987"@);
        },
        SocModel::Mt7986 => {
            reveal_strlit("mt7986");
            reveal_strlit("mt7988");
            assert("mt7986"@[5] != "mt7988"@[5]);
            lemma_contains_same_len("mt7986"@, "mt7988"@);
            reveal_strlit("mt7987");
            assert("mt7986"@[5] != "mt7987"@[5]);
            lemma_contains_same_len("mt7986"@, "mt7987"@);
            lemma_contains_same_len("mt7986"@, "mt7986"@);
        },
        SocModel::Mt7981 => {
            reveal_strlit("mt7981");
            reveal_strlit("mt7988");
            assert("mt7981"@[5] != "mt7988"@[5]);
            lemma_contains_same_len("mt7981"@, "mt7988"@);
            reveal_strlit("mt7987");
            assert("mt7981"@[5] != "mt7987"@[5]);
            lemma_contains_same_len("mt7981"@, "mt7987"@);
            reveal_strlit("mt7986");
            assert("mt7981"@[5] != "mt7986"@[5]);
            lemma_contains_same_len("mt7981"@, "mt7986"@);
            lemma_contains_same_len("mt7981"@, "mt7981"@);
        },
        SocModel::Mt7622 => {
            reveal_strlit("mt7622");
            reveal_strlit("mt7988");
            assert("mt7622"@[3] != "mt7988"@[3]);
            lemma_contains_same_len("mt7622"@, "mt7988"@);
            reveal_strlit("mt7987");
            assert("mt7622"@[3] != "mt7987"@[3]);
            lemma_contains_same_len("mt7622"@, "mt7987"@);
            reveal_strlit("mt7986");
            assert("mt7622"@[3] != "mt7986"@[3]);
            lemma_contains_same_len("mt7622"@, "mt7986"@);
            reveal_strlit("mt7981");
            assert("mt7622"@[3] != "mt7981"@[3]);
            lemma_contains_same_len("mt7622"@, "mt7981"@);
            lemma_contains_same_len("mt7622"@, "mt7622"@);
        },
        SocModel::Mt7629 => {
            reveal_strlit("mt7629");
            reveal_strlit("mt7988");
            assert("mt7629"@[3] != "mt7988"@[3]);
            lemma_contains_same_len("mt7629"@, "mt7988"@);
            reveal_strlit("mt7987");
            assert("mt7629"@[3] != "mt7987"@[3]);
            lemma_contains_same_len("mt7629"@, "mt7987"@);
            reveal_strlit("mt7986");
            assert("mt7629"@[3] != "mt7986"@[3]);
            lemma_contains_same_len("mt7629"@, "mt7986"@);
            reveal_strlit("mt7981");
            assert("mt7629"@[3] != "mt7981"@[3]);
            lemma_contains_same_len("mt7629"@, "mt7981"@);
            reveal_strlit("mt7622");
            assert("mt7629"@[5] != "mt7622"@[5]);
            lemma_contains_same_len("mt7629"@, "mt7622"@);
            lemma_contains_same_len("mt7629"@, "mt7629"@);
        },
        SocModel::Mt7621 => {
            reveal_strlit("mt7621");
            reveal_strlit("mt7988");
            assert("mt7621"@[3] != "mt7988"@[3]);
            lemma_contains_same_len("mt7621"@, "mt7988"@);
            reveal_strlit("mt7987");
            assert("mt7621"@[3] != "mt7987"@[3]);
            lemma_contains_same_len("mt7621"@, "mt7987"@);
            reveal_strlit("mt7986");
            assert("mt7621"@[3] != "mt7986"@[3]);
            lemma_contains_same_len("mt7621"@, "mt7986"@);
            reveal_strlit("mt7981");
            assert("mt7621"@[3] != "mt7981"@[3]);
            lemma_contains_same_len("mt7621"@, "mt7981"@);
            reveal_strlit("mt7622");
            assert("mt7621"@[5] != "mt7622"@[5]);
            lemma_contains_same_len("mt7621"@, "mt7622"@);
            reveal_strlit("mt7629");
            assert("mt7621"@[5] != "mt7629"@[5]);
            lemma_contains_same_len("mt7621"@, "mt7629"@);
            lemma_contains_same_len("mt7621"@, "mt7621"@);
        },
        SocModel::Mt7628 => {
            reveal_strlit("mt7628");
            reveal_strlit("mt7988");
            assert("mt7628"@[3] != "mt7988"@[3]);
            lemma_contains_same_len("mt7628"@, "mt7988"@);
            reveal_strlit("mt7987");
            assert("mt7628"@[3] != "mt7987"@[3]);
            lemma_contains_same_len("mt7628"@, "mt7987"@);
            reveal_strlit("mt7986");
            assert("mt7628"@[3] != "mt7986"@[3]);
            lemma_contains_same_len("mt7628"@, "mt7986"@);
            reveal_strlit("mt7981");
            assert("mt7628"@[3] != "mt7981"@[3]);
            lemma_contains_same_len("mt7628"@, "mt7981"@);
            reveal_strlit("mt7622");
            assert("mt7628"@[5] != "mt7622"@[5]);
            lemma_contains_same_len("mt7628"@, "mt7622"@);
            reveal_strlit("mt7629");
            assert("mt7628"@[5] != "mt7629"@[5]);
            lemma_contains_same_len("mt7628"@, "mt7629"@);
            reveal_strlit("mt7621");
            assert("mt7628"@[5] != "mt7621"@[5]);
            lemma_contains_same_len("mt7628"@, "mt7621"@);
            lemma_contains_same_len("mt7628"@, "mt7628"@);
        },
        SocModel::Mt7620 => {
            reveal_strlit("mt7620");
            reveal_strlit("mt7988");
            assert("mt7620"@[3] != "mt7988"@[3]);
            lemma_contains_same_len("mt7620"@, "mt7988"@);
            reveal_strlit("mt7987");
            assert("mt7620"@[3] != "mt7987"@[3]);
            lemma_contains_same_len("mt7620"@, "mt7987"@);
            reveal_strlit("mt7986");
            assert("mt7620"@[3] != "mt7986"@[3]);
            lemma_contains_same_len("mt7620"@, "mt7986"@);
            reveal_strlit("mt7981");
            assert("mt7620"@[3] != "mt7981"@[3]);
            lemma_contains_same_len("mt7620"@, "mt7981"@);
            reveal_strlit("mt7622");
            assert("mt7620"@[5] != "mt7622"@[5]);
            lemma_contains_same_len("mt7620"@, "mt7622"@);
            reveal_strlit("mt7629");
            assert("mt7620"@[5] != "mt7629"@[5]);
            lemma_contains_same_len("mt7620"@, "mt7629"@);
            reveal_strlit("mt7621");
            assert("mt7620"@[5] != "mt7621"@[5]);
            lemma_contains_same_len("mt7620"@, "mt7621"@);
            reveal_strlit("mt7628");
            assert("mt7620"@[5] != "mt7628"@[5]);
            lemma_contains_same_len("mt7620"@, "mt7628"@);
            lemma_contains_same_len("mt7620"@, "mt7620"@);
        },
        SocModel::Unknown => {},
    }
}

// ---------------------------------------------------------------------------
// What the `/proc/cpuinfo` parser can answer
// ---------------------------------------------------------------------------

/// The ARM core names that the parser can give.
pub open spec fn cortex_names() -> Seq<Seq<char>> {
    seq!["Cortex-A7"@, "Cortex-A53"@, "Cortex-A35"@, "Cortex-A55"@, "Cortex-A72"@, "Cortex-A73"@, "Cortex-A75"@, "Cortex-A76"@, "Cortex-A77"@, "Cortex-A78"@]
}

/// The MIPS core names that the parser can give.
pub open spec fn mips_names() -> Seq<Seq<char>> {
    seq!["MIPS 1004Kc"@, "MIPS 24KEc"@, "MIPS"@]
}

/// The value of the last `CPU implementer` line (key compared ignoring ASCII case), read as
/// hexadecimal; absent when there is no such line, or its value is no such number.
pub open spec fn last_implementer(ls: Seq<Seq<char>>) -> Option<nat>
    decreases ls.len(),
{
    if ls.len() == 0 {
        None
    } else {
        match split_once(ls.last(), ':') {
            Some((k, v)) => if eq_ignore_case(trim(k), "CPU implementer"@) {
                hex_field(trim(v))
            } else {
                last_implementer(ls.drop_last())
            },
            None => last_implementer(ls.drop_last()),
        }
    }
}

/// The gathered implementer is the last one, the gathered MIPS name is one of
/// [`mips_names`], and lines without a `:` gather nothing.
proof fn lemma_scan_fields(ls: Seq<Seq<char>>)
    ensures
        scan_lines(ls).implementer == last_implementer(ls),
        scan_lines(ls).mips matches Some(m) ==> mips_names().contains(m),
        (forall|i: int| 0 <= i < ls.len() ==> !(#[trigger] ls[i]).contains(':')) ==> scan_lines(ls)
            == (CpuIds { implementer: None, part: None, mips: None }),
    decreases ls.len(),
{
    if ls.len() > 0 {
        let rest = ls.drop_last();
        let l = ls.last();
        lemma_scan_fields(rest);
        assert(mips_names()[0] == "MIPS 1004Kc"@);
        assert(mips_names()[1] == "MIPS 24KEc"@);
        assert(mips_names()[2] == "MIPS"@);
        if forall|i: int| 0 <= i < ls.len() ==> !(#[trigger] ls[i]).contains(':') {
            assert forall|i: int| 0 <= i < rest.len() implies !(#[trigger] rest[i]).contains(':') by {
                assert(rest[i] == ls[i]);
            }
            assert(!ls[ls.len() - 1].contains(':'));
            lemma_index_of(l, ':');
            if index_of(l, ':') is Some {
                let j = index_of(l, ':')->0;
                assert(l[j] == ':');
            }
        }
    }
}

/// The parser answers nothing, a MIPS core name, or an ARM core name, the latter only when
/// the last `CPU implementer` line names ARM Ltd (0x41); with no `key: value` line at all it
/// answers nothing.
pub proof fn law_cpu_arch_range(cpuinfo: Seq<char>)
    ensures
        cpu_arch_of(cpuinfo) matches Some(n) ==> cortex_names().contains(n) || mips_names().contains(
            n,
        ),
        cpu_arch_of(cpuinfo) matches Some(n) && cortex_names().contains(n) ==> last_implementer(
            lines(cpuinfo),
        ) == Some(0x41nat),
        (forall|i: int| 0 <= i < lines(cpuinfo).len() ==> !(#[trigger] lines(cpuinfo)[i]).contains(':'))
            ==> cpu_arch_of(cpuinfo) is None,
{
    let ls = lines(cpuinfo);
    lemma_scan_fields(ls);
    reveal_strlit("Cortex-A7");
    reveal_strlit("Cortex-A53");
    reveal_strlit("Cortex-A35");
    reveal_strlit("Cortex-A55");
    reveal_strlit("Cortex-A72");
    reveal_strlit("Cortex-A73");
    reveal_strlit("Cortex-A75");
    reveal_strlit("Cortex-A76");
    reveal_strlit("Cortex-A77");
    reveal_strlit("Cortex-A78");
    reveal_strlit("MIPS 1004Kc");
    reveal_strlit("MIPS 24KEc");
    reveal_strlit("MIPS");
    assert(cortex_names()[0][0] == 'C');
    assert(cortex_names()[1][0] == 'C');
    assert(cortex_names()[2][0] == 'C');
    assert(cortex_names()[3][0] == 'C');
    assert(cortex_names()[4][0] == 'C');
    assert(cortex_names()[5][0] == 'C');
    assert(cortex_names()[6][0] == 'C');
    assert(cortex_names()[7][0] == 'C');
    assert(cortex_names()[8][0] == 'C');
    assert(cortex_names()[9][0] == 'C');
    assert(mips_names()[0][0] == 'M');
    assert(mips_names()[1][0] == 'M');
    assert(mips_names()[2][0] == 'M');
    let st = scan_lines(ls);
    if st.implementer == Some(0x41nat) && st.part is Some {
        let p = st.part->0;
        if arm_core(p) is Some {
            let n = arm_core(p)->0;
            assert(cortex_names().contains(n)) by {
                if p == 0xc07 { assert(cortex_names()[0] == n); }
                else if p == 0xd03 { assert(cortex_names()[1] == n); }
                else if p == 0xd04 { assert(cortex_names()[2] == n); }
                else if p == 0xd05 { assert(cortex_names()[3] == n); }
                else if p == 0xd08 { assert(cortex_names()[4] == n); }
                else if p == 0xd09 { assert(cortex_names()[5] == n); }
                else if p == 0xd0a { assert(cortex_names()[6] == n); }
                else if p == 0xd0b { assert(cortex_names()[7] == n); }
                else if p == 0xd0c { assert(cortex_names()[8] == n); }
                else { assert(cortex_names()[9] == n); }
            }
        }
    } else if st.mips is Some {
        let n = st.mips->0;
        if cortex_names().contains(n) {
            let a = choose|a: int| 0 <= a < cortex_names().len() && cortex_names()[a] == n;
            let b = choose|b: int| 0 <= b < mips_names().len() && mips_names()[b] == n;
            assert(n[0] == 'C');
            assert(n[0] == 'M');
        }
    }
}

/// The value of the last `CPU part` line (key compared ignoring ASCII case), read as
/// hexadecimal; absent when there is no such line, or its value is no such number.
pub open spec fn last_part(ls: Seq<Seq<char>>) -> Option<nat>
    decreases ls.len(),
{
    if ls.len() == 0 {
        None
    } else {
        match split_once(ls.last(), ':') {
            Some((k, v)) => if eq_ignore_case(trim(k), "CPU part"@) {
                hex_field(trim(v))
            } else {
                last_part(ls.drop_last())
            },
            None => last_part(ls.drop_last()),
        }
    }
}

/// The gathered part number is the last one.
proof fn lemma_scan_part(ls: Seq<Seq<char>>)
    ensures
        scan_lines(ls).part == last_part(ls),
    decreases ls.len(),
{
    if ls.len() > 0 {
        lemma_scan_part(ls.drop_last());
        reveal_strlit("CPU implementer");
        reveal_strlit("CPU part");
        assert(ascii_lower("CPU implementer"@).len() != ascii_lower("CPU part"@).len());
    }
}

/// With ARM Ltd (0x41) as the last implementer, the last part number names the core by the
/// ARM part table, and a part number outside the table names none.
pub proof fn law_arm_part_table(cpuinfo: Seq<char>)
    requires
        last_implementer(lines(cpuinfo)) == Some(0x41nat),
    ensures
        last_part(lines(cpuinfo)) == Some(0xc07nat) ==> cpu_arch_of(cpuinfo) == Some("Cortex-A7"@),
        last_part(lines(cpuinfo)) == Some(0xd03nat) ==> cpu_arch_of(cpuinfo) == Some("Cortex-A53"@),
        last_part(lines(cpuinfo)) == Some(0xd04nat) ==> cpu_arch_of(cpuinfo) == Some("Cortex-A35"@),
        last_part(lines(cpuinfo)) == Some(0xd05nat) ==> cpu_arch_of(cpuinfo) == Some("Cortex-A55"@),
        last_part(lines(cpuinfo)) == Some(0xd08nat) ==> cpu_arch_of(cpuinfo) == Some("Cortex-A72"@),
        last_part(lines(cpuinfo)) == Some(0xd09nat) ==> cpu_arch_of(cpuinfo) == Some("Cortex-A73"@),
        last_part(lines(cpuinfo)) == Some(0xd0anat) ==> cpu_arch_of(cpuinfo) == Some("Cortex-A75"@),
        last_part(lines(cpuinfo)) == Some(0xd0bnat) ==> cpu_arch_of(cpuinfo) == Some("Cortex-A76"@),
        last_part(lines(cpuinfo)) == Some(0xd0cnat) ==> cpu_arch_of(cpuinfo) == Some("Cortex-A77"@),
        last_part(lines(cpuinfo)) == Some(0xd41nat) ==> cpu_arch_of(cpuinfo) == Some("Cortex-A78"@),
        last_part(lines(cpuinfo)) matches Some(p) && p != 0xc07nat && p != 0xd03nat && p != 0xd04nat && p != 0xd05nat && p != 0xd08nat && p != 0xd09nat && p != 0xd0anat && p != 0xd0bnat && p != 0xd0cnat && p != 0xd41nat ==> cpu_arch_of(cpuinfo) is None,
{
    lemma_scan_fields(lines(cpuinfo));
    lemma_scan_part(lines(cpuinfo));
}

/// The specification table of the models: PPE and WED counts, maximum core frequency, and
/// which models have multi-queue RSS (the Filogic line), an ARM core (secure boot,
/// TrustZone), and SHA acceleration with a hardware RNG.
pub proof fn law_soc_table()
    ensures
        ppe_of(SocModel::Mt7988) == 3,
        ppe_of(SocModel::Mt7987) == 2,
        ppe_of(SocModel::Mt7986) == 2,
        ppe_of(SocModel::Mt7981) == 2,
        ppe_of(SocModel::Mt7622) == 1,
        ppe_of(SocModel::Mt7629) == 1,
        ppe_of(SocModel::Mt7621) == 1,
        ppe_of(SocModel::Mt7628) == 1,
        ppe_of(SocModel::Mt7620) == 1,
        ppe_of(SocModel::Unknown) == 0,
        wed_of(SocModel::Mt7988) == 2,
        wed_of(SocModel::Mt7987) == 2,
        wed_of(SocModel::Mt7986) == 2,
        wed_of(SocModel::Mt7981) == 1,
        wed_of(SocModel::Mt7622) == 2,
        wed_of(SocModel::Mt7629) == 0,
        wed_of(SocModel::Mt7621) == 0,
        wed_of(SocModel::Mt7628) == 0,
        wed_of(SocModel::Mt7620) == 0,
        wed_of(SocModel::Unknown) == 0,
        core_hz(SocModel::Mt7988) == 1800000000,
        core_hz(SocModel::Mt7987) == 2000000000,
        core_hz(SocModel::Mt7986) == 2000000000,
        core_hz(SocModel::Mt7981) == 1300000000,
        core_hz(SocModel::Mt7622) == 1350000000,
        core_hz(SocModel::Mt7629) == 1250000000,
        core_hz(SocModel::Mt7621) == 880000000,
        core_hz(SocModel::Mt7628) == 580000000,
        core_hz(SocModel::Mt7620) == 600000000,
        core_hz(SocModel::Unknown) == 0,
        is_filogic(SocModel::Mt7988),
        is_filogic(SocModel::Mt7987),
        is_filogic(SocModel::Mt7986),
        is_filogic(SocModel::Mt7981),
        is_filogic(SocModel::Mt7622),
        !is_filogic(SocModel::Mt7629),
        !is_filogic(SocModel::Mt7621),
        !is_filogic(SocModel::Mt7628),
        !is_filogic(SocModel::Mt7620),
        !is_filogic(SocModel::Unknown),
        is_arm(SocModel::Mt7988),
        is_arm(SocModel::Mt7987),
        is_arm(SocModel::Mt7986),
        is_arm(SocModel::Mt7981),
        is_arm(SocModel::Mt7622),
        is_arm(SocModel::Mt7629),
        !is_arm(SocModel::Mt7621),
        !is_arm(SocModel::Mt7628),
        !is_arm(SocModel::Mt7620),
        !is_arm(SocModel::Unknown),
        has_full_crypto(SocModel::Mt7988),
        has_full_crypto(SocModel::Mt7987),
        has_full_crypto(SocModel::Mt7986),
        has_full_crypto(SocModel::Mt7981),
        has_full_crypto(SocModel::Mt7622),
        has_full_crypto(SocModel::Mt7629),
        has_full_crypto(SocModel::Mt7621),
        !has_full_crypto(SocModel::Mt7628),
        !has_full_crypto(SocModel::Mt7620),
        !has_full_crypto(SocModel::Unknown),
{
}

} // verus!
