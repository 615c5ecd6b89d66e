//! The first-generation hardware panel: capabilities of the first SoC table, with the
//! texts shown for each of them.
use vstd::prelude::*;
use crate::platform::hardware::{
    brand_names_something, cores_of, crypto_of, generic_model_of, lines_of_text, memory_of,
    names_something, opt_nat_u64, opt_text, opt_views, string_views, target_clock_names, trng_of,
    valid_mhz, HardwareInfo as PlatformHardware, HardwareProbe,
};
use crate::soc::SocModel;
use crate::text::{
    chars_of, contains, contains_str, dec_chars, dec_str, lines, lowercase, lowercase_chars,
    parse_bounded, parse_unsigned, push_all, push_str, split_ws, string_of, tokens, trim, trim_ws,
    views,
};

verus! {

/// Hardware capabilities and platform feature flags.
#[derive(Debug, Clone)]
pub struct HardwareInfo {
    pub soc: SocModel,
    pub cpu_cores: usize,
    pub cpu_arch: String,
    pub cpu_freq_mhz: Option<u64>,
    pub memory_mb: Option<u64>,
    pub memory_freq_mhz: Option<u64>,
    pub switch: String,
    pub flash: String,
    pub misc: String,
    pub ppe_count: usize,
    pub wed_count: usize,
    pub rss: bool,
    pub checksum_offload: bool,
    pub tso: bool,
    pub multi_rx: bool,
    pub crypto_engine: bool,
    pub aes: bool,
    pub sha: bool,
    pub trng: bool,
    pub secure_boot: bool,
    pub trustzone: bool,
}

/// The CPU microarchitecture by known ARM part numbers or a MIPS mention in `/proc/cpuinfo`,
/// else its generic model name.
pub open spec fn known_arch_of(cpuinfo: Seq<char>) -> Option<Seq<char>> {
    if contains(cpuinfo, "CPU part\t: 0xd03"@) {
        Some("Cortex-A53"@)
    } else if contains(cpuinfo, "CPU part\t: 0xd08"@) {
        Some("Cortex-A73"@)
    } else if contains(cpuinfo, "CPU part\t: 0xd0b"@) {
        Some("Cortex-A76"@)
    } else if contains(cpuinfo, "MIPS"@) {
        Some("MIPS"@)
    } else {
        generic_model_of(cpuinfo)
    }
}

/// The architecture text of a model.
pub open spec fn arch_text(m: SocModel) -> Seq<char> {
    match m {
        SocModel::Mt7988 => "4× Cortex-A73"@,
        SocModel::Mt7986 => "4× Cortex-A53"@,
        SocModel::Mt7981 => "2× Cortex-A53"@,
        SocModel::Mt7621 => "2× MIPS1004Kc"@,
        SocModel::Unknown => "Unknown"@,
    }
}

/// The CPU microarchitecture: the CPU brand when it names something, else
/// [`known_arch_of`], else the architecture of the SoC model.
pub open spec fn arch_of(brand: Option<Seq<char>>, cpuinfo: Seq<char>, soc: SocModel) -> Seq<char> {
    match brand {
        Some(b) if names_something(b) => trim(b),
        _ => match known_arch_of(cpuinfo) {
            Some(a) => a,
            None => arch_text(soc),
        },
    }
}

/// The first clock summary row naming a target clock whose fifth column is a rate of at
/// least 100 MHz.
pub open spec fn freq_from_summary(rows: Seq<Seq<char>>) -> Option<nat>
    decreases rows.len(),
{
    if rows.len() == 0 {
        None
    } else {
        let p = tokens(rows[0]);
        match (if p.len() >= 5 && target_clock_names().contains(p[0]) {
            match parse_bounded(p[4], false, 0xffff_ffff_ffff_ffff) {
                Some(hz) => valid_mhz(hz),
                None => None,
            }
        } else {
            None
        }) {
            Some(m) => Some(m),
            None => freq_from_summary(rows.drop_first()),
        }
    }
}

/// The CPU frequency in MHz: from the clock rate files, else from the clock summary.
pub open spec fn freq_of(rates: Seq<Option<Seq<char>>>, summary: Option<Seq<char>>) -> Option<nat> {
    match crate::platform::hardware::freq_from_rates(rates) {
        Some(m) => Some(m),
        None => match summary {
            Some(t) => freq_from_summary(crate::platform::hardware::after_header(lines(t))),
            None => None,
        },
    }
}

/// The number of device entries whose lower-cased name contains `kw`.
pub open spec fn count_containing(names: Seq<Seq<char>>, kw: Seq<char>) -> nat
    decreases names.len(),
{
    if names.len() == 0 {
        0
    } else {
        (if contains(lowercase(names[0]), kw) {
            1nat
        } else {
            0nat
        }) + count_containing(names.drop_first(), kw)
    }
}

/// Devices of the kind `kw` on the platform bus, or, when none is there, in the device tree.
pub open spec fn platform_count(bus: Seq<Seq<char>>, soc: Seq<Seq<char>>, kw: Seq<char>) -> nat {
    let c = count_containing(bus, kw);
    if c == 0 {
        count_containing(soc, kw)
    } else {
        c
    }
}

/// A value's text, flagged with a red exclamation mark when it differs from the expected one.
pub open spec fn flagged(text: Seq<char>, differs: bool) -> Seq<char> {
    if differs {
        text + " ❗"@
    } else {
        text
    }
}

/// The check mark for a capability.
pub open spec fn mark(b: bool) -> Seq<char> {
    if b {
        "✓"@
    } else {
        "✗"@
    }
}

/// The CPU line: the core count and architecture, the frequency if known, flagged when it
/// differs from the SoC model's (known) frequency.
pub open spec fn cpu_line(cores: nat, arch: Seq<char>, freq: Option<u64>, soc_hz: nat) -> Seq<char> {
    let base = crate::platform::hardware::cpu_base_text(cores, arch);
    match freq {
        Some(f) => flagged(
            base + " @ "@ + dec_str(f as nat) + " MHz"@,
            soc_hz / 1_000_000 > 0 && f != soc_hz / 1_000_000,
        ),
        None => base,
    }
}

/// The core frequency of a model in Hz.
pub open spec fn core_hz(m: SocModel) -> nat {
    match m {
        SocModel::Mt7988 => 1_800_000_000,
        SocModel::Mt7986 => 2_000_000_000,
        SocModel::Mt7981 => 1_300_000_000,
        SocModel::Mt7621 => 880_000_000,
        SocModel::Unknown => 0,
    }
}

fn count_containing_entries(names: &Vec<String>, kw: &str) -> (r: usize)
    ensures
        r == count_containing(string_views(names@), kw@),
{
    let ghost all = string_views(names@);
    let mut n: usize = 0;
    let mut i: usize = 0;
    assert(all.skip(0) =~= all);
    while i < names.len()
        invariant
            i <= names.len(),
            n <= i,
            all == string_views(names@),
            count_containing(all, kw@) == n + count_containing(all.skip(i as int), kw@),
        decreases names.len() - i,
    {
        assert(all.skip(i as int)[0] == names@[i as int]@);
        assert(all.skip(i as int).drop_first() =~= all.skip(i + 1));
        let f = lowercase_chars(&chars_of(names[i].as_str()));
        if contains_str(&f, kw) {
            n = n + 1;
        }
        i = i + 1;
    }
    assert(all.skip(i as int) =~= Seq::<Seq<char>>::empty());
    n
}

impl HardwareInfo {
    /// Identifies the CPU microarchitecture from `/proc/cpuinfo` (see [`known_arch_of`]).
    pub fn parse_cpu_architecture_from_cpuinfo(cpuinfo: &str) -> (r: Option<String>)
        ensures
            opt_text(r) == known_arch_of(cpuinfo@),
    {
        let c = chars_of(cpuinfo);
        if contains_str(&c, "CPU part\t: 0xd03") {
            Some(String::from_str("Cortex-A53"))
        } else if contains_str(&c, "CPU part\t: 0xd08") {
            Some(String::from_str("Cortex-A73"))
        } else if contains_str(&c, "CPU part\t: 0xd0b") {
            Some(String::from_str("Cortex-A76"))
        } else if contains_str(&c, "MIPS") {
            Some(String::from_str("MIPS"))
        } else {
            PlatformHardware::parse_generic_cpu_model(cpuinfo)
        }
    }

    /// Detects the CPU microarchitecture (see [`arch_of`]).
    pub fn detect_cpu_arch(sysinfo_cpu_brand: Option<&str>, cpuinfo: &str, soc: &SocModel) -> (r:
        String)
        ensures
            r@ == arch_of(
                match sysinfo_cpu_brand {
                    Some(b) => Some(b@),
                    None => None,
                },
                cpuinfo@,
                *soc,
            ),
    {
        if let Some(b) = sysinfo_cpu_brand {
            let bc = chars_of(b);
            if brand_names_something(&bc) {
                return string_of(&trim_ws(&bc));
            }
        }
        match Self::parse_cpu_architecture_from_cpuinfo(cpuinfo) {
            Some(a) => a,
            None => String::from_str(soc.architecture()),
        }
    }

    /// Detects the CPU frequency in MHz (see [`freq_of`]).
    pub fn detect_cpu_frequency_mhz(clk_rates: &Vec<Option<String>>, clk_summary: Option<&str>) -> (r:
        Option<u64>)
        ensures
            opt_nat_u64(r) == freq_of(
                opt_views(clk_rates@),
                match clk_summary {
                    Some(t) => Some(t@),
                    None => None,
                },
            ),
    {
        let from_rates = PlatformHardware::detect_cpu_frequency_mhz(clk_rates, None);
        if from_rates.is_some() {
            return from_rates;
        }
        let t = match clk_summary {
            Some(t) => t,
            None => return None,
        };
        let ls = lines_of_text(t);
        let ghost all = views(ls@);
        if ls.len() < 2 {
            return None;
        }
        let mut k: usize = 2;
        assert(crate::platform::hardware::after_header(all) =~= all.skip(2));
        while k < ls.len()
            invariant
                2 <= k <= ls.len(),
                all == views(ls@),
                all == lines(t@),
                crate::platform::hardware::freq_from_rates(opt_views(clk_rates@)) is None,
                freq_of(
                    opt_views(clk_rates@),
                    match clk_summary {
                        Some(t) => Some(t@),
                        None => None,
                    },
                ) == freq_from_summary(all.skip(k as int)),
            decreases ls.len() - k,
        {
            assert(all.skip(k as int)[0] == ls@[k as int]@);
            assert(all.skip(k as int).drop_first() =~= all.skip(k + 1));
            let p = split_ws(&ls[k]);
            if p.len() >= 5 {
                assert(views(p@)[0] == p@[0]@);
                assert(views(p@)[4] == p@[4]@);
                if is_target(&p[0]) {
                    match parse_unsigned(&p[4], false, 0xffff_ffff_ffff_ffff) {
                        Some(hz) => {
                            if hz / 1_000_000 >= 100 {
                                return Some(hz / 1_000_000);
                            }
                        },
                        None => {},
                    }
                }
            }
            k = k + 1;
        }
        None
    }

    /// Counts the platform devices whose name contains `keyword` (see [`platform_count`]).
    pub fn count_platform_devices(platform_devices: &Vec<String>, soc_nodes: &Vec<String>, keyword: &str) -> (r:
        usize)
        ensures
            r == platform_count(string_views(platform_devices@), string_views(soc_nodes@), keyword@),
    {
        let c = count_containing_entries(platform_devices, keyword);
        if c == 0 {
            count_containing_entries(soc_nodes, keyword)
        } else {
            c
        }
    }

    /// Detects hardware components and system capabilities from the probe readings.
    pub fn detect(probe: &HardwareProbe) -> (r: HardwareInfo)
        ensures
            r.soc == SocModel::detect_spec(opt_text(probe.compatible)),
            r.cpu_cores == cores_of(probe.sysinfo_cpu_count as nat, probe.cpuinfo@),
            r.cpu_arch@ == arch_of(opt_text(probe.sysinfo_cpu_brand), probe.cpuinfo@, r.soc),
            opt_nat_u64(r.cpu_freq_mhz) == freq_of(opt_views(probe.clk_rates@), opt_text(probe.clk_summary)),
            opt_nat_u64(r.memory_mb) == memory_of(opt_text(probe.meminfo)),
            r.memory_freq_mhz is None,
            r.switch@ == "[Placeholder]"@,
            r.flash@ == "[Placeholder]"@,
            r.misc@ == "[Placeholder]"@,
            r.ppe_count == crate::platform::hardware::max_nat(
                r.soc.ppe_spec(),
                platform_count(string_views(probe.platform_devices@), string_views(probe.soc_nodes@), "ppe"@),
            ),
            r.wed_count == crate::platform::hardware::max_nat(
                r.soc.wed_spec(),
                platform_count(string_views(probe.platform_devices@), string_views(probe.soc_nodes@), "wed"@),
            ),
            !r.rss,
            !r.checksum_offload,
            !r.tso,
            r.multi_rx == (probe.main_interface is Some && probe.rx_queue_present),
            r.crypto_engine == (platform_count(
                string_views(probe.platform_devices@),
                string_views(probe.soc_nodes@),
                "crypto"@,
            ) > 0 || platform_count(string_views(probe.platform_devices@), string_views(probe.soc_nodes@), "eip"@)
                > 0),
            r.aes == crypto_of(opt_text(probe.crypto), "aes"@),
            r.sha == crypto_of(opt_text(probe.crypto), "sha"@),
            r.trng == trng_of(opt_text(probe.rng_available), probe.hwrng_present),
            r.secure_boot == (probe.securelevel_present || probe.secure_boot_node_present),
            r.trustzone == (probe.tee_device_present || probe.tee_class_present),
    {
        let soc = SocModel::detect(
            match &probe.compatible {
                Some(t) => Some(t.as_str()),
                None => None,
            },
        );
        let iface = &probe.main_interface;
        let devs = &probe.platform_devices;
        let nodes = &probe.soc_nodes;
        let ppe = Self::count_platform_devices(devs, nodes, "ppe");
        let wed = Self::count_platform_devices(devs, nodes, "wed");
        let crypto_text = match &probe.crypto {
            Some(t) => Some(t.as_str()),
            None => None,
        };
        HardwareInfo {
            soc,
            cpu_cores: PlatformHardware::detect_cpu_cores(probe.sysinfo_cpu_count, probe.cpuinfo.as_str()),
            cpu_arch: Self::detect_cpu_arch(
                match &probe.sysinfo_cpu_brand {
                    Some(b) => Some(b.as_str()),
                    None => None,
                },
                probe.cpuinfo.as_str(),
                &soc,
            ),
            cpu_freq_mhz: Self::detect_cpu_frequency_mhz(
                &probe.clk_rates,
                match &probe.clk_summary {
                    Some(t) => Some(t.as_str()),
                    None => None,
                },
            ),
            memory_mb: PlatformHardware::detect_memory_mb(
                match &probe.meminfo {
                    Some(t) => Some(t.as_str()),
                    None => None,
                },
            ),
            memory_freq_mhz: PlatformHardware::detect_memory_freq_mhz(),
            switch: PlatformHardware::detect_switch(),
            flash: PlatformHardware::detect_flash(),
            misc: PlatformHardware::detect_misc(),
            ppe_count: if soc.ppe_count() >= ppe {
                soc.ppe_count()
            } else {
                ppe
            },
            wed_count: if soc.wed_count() >= wed {
                soc.wed_count()
            } else {
                wed
            },
            rss: PlatformHardware::check_nic_feature(iface, "rx-hashing")
                || PlatformHardware::check_nic_feature(iface, "rx-vlan-hw-parse"),
            checksum_offload: PlatformHardware::check_nic_feature(iface, "tx-checksum")
                || PlatformHardware::check_nic_feature(iface, "rx-checksum"),
            tso: PlatformHardware::check_nic_feature(iface, "tcp-segmentation-offload"),
            multi_rx: PlatformHardware::check_multi_rx(iface, probe.rx_queue_present),
            crypto_engine: Self::count_platform_devices(devs, nodes, "crypto") > 0
                || Self::count_platform_devices(devs, nodes, "eip") > 0,
            aes: PlatformHardware::check_crypto_algo(crypto_text, "aes"),
            sha: PlatformHardware::check_crypto_algo(crypto_text, "sha"),
            trng: PlatformHardware::check_trng(
                match &probe.rng_available {
                    Some(t) => Some(t.as_str()),
                    None => None,
                },
                probe.hwrng_present,
            ),
            secure_boot: PlatformHardware::check_secure_boot(
                probe.securelevel_present,
                probe.secure_boot_node_present,
            ),
            trustzone: probe.tee_device_present || probe.tee_class_present,
        }
    }

    /// Returns a human-readable string for the System on Chip (SoC) model.
    pub fn display_soc(&self) -> (r: String)
        ensures
            r@ == self.soc.display_name_spec(),
    {
        String::from_str(self.soc.display_name())
    }

    /// Assembles CPU information into a human-readable string, flagged with a red
    /// exclamation mark when the frequency differs from the SoC model's.
    pub fn display_cpu(&self) -> (r: String)
        ensures
            r@ == cpu_line(self.cpu_cores as nat, self.cpu_arch@, self.cpu_freq_mhz, core_hz(self.soc)),
    {
        let arch = chars_of(self.cpu_arch.as_str());
        let mut out: Vec<char> = match crate::text::find_char(&arch, '×') {
            Some(_) => {
                proof {
                    crate::text::lemma_index_of(arch@, '×');
                    assert(arch@.contains('×'));
                }
                arch
            },
            None => {
                proof {
                    crate::text::lemma_index_of(arch@, '×');
                }
                let mut v = dec_chars(self.cpu_cores as u64);
                push_str(&mut v, "× ");
                push_all(&mut v, &arch);
                v
            },
        };
        if let Some(freq) = self.cpu_freq_mhz {
            push_str(&mut out, " @ ");
            push_all(&mut out, &dec_chars(freq));
            push_str(&mut out, " MHz");
            let expected_mhz = self.soc.core_frequency_hz() / 1_000_000;
            if expected_mhz > 0 && freq != expected_mhz {
                push_str(&mut out, " ❗");
            }
        }
        string_of(&out)
    }

    /// Assembles RAM information into a human-readable string.
    pub fn display_ram(&self) -> (r: String)
        ensures
            r@ == crate::platform::hardware::ram_text(self.memory_mb, self.memory_freq_mhz),
    {
        let p = crate::platform::hardware::ram_text_of(self.memory_mb, self.memory_freq_mhz);
        p
    }

    /// The number of Packet Processing Engines, flagged when it deviates from the SoC's.
    pub fn display_ppe_count(&self) -> (r: String)
        ensures
            r@ == flagged(dec_str(self.ppe_count as nat), self.ppe_count != self.soc.ppe_spec()),
    {
        Self::format_count(self.ppe_count, self.soc.ppe_count())
    }

    /// The number of Wireless Ethernet Dispatchers, flagged when it deviates from the SoC's.
    pub fn display_wed_count(&self) -> (r: String)
        ensures
            r@ == flagged(dec_str(self.wed_count as nat), self.wed_count != self.soc.wed_spec()),
    {
        Self::format_count(self.wed_count, self.soc.wed_count())
    }

    /// Whether Receive Side Scaling (RSS) is active, flagged when the SoC says otherwise.
    pub fn display_rss(&self) -> (r: String)
        ensures
            r@ == flagged(mark(self.rss), self.rss != crate::soc::is_arm(self.soc)),
    {
        Self::format_bool(self.rss, self.soc.has_rss())
    }

    /// Whether Checksum Offload is active, flagged when the SoC says otherwise.
    pub fn display_checksum_offload(&self) -> (r: String)
        ensures
            r@ == flagged(mark(self.checksum_offload), self.checksum_offload != (self.soc != SocModel::Unknown)),
    {
        Self::format_bool(self.checksum_offload, self.soc.has_checksum_offload())
    }

    /// Whether TCP Segmentation Offload (TSO) is active, flagged when the SoC says otherwise.
    pub fn display_tso(&self) -> (r: String)
        ensures
            r@ == flagged(mark(self.tso), self.tso != (self.soc != SocModel::Unknown)),
    {
        Self::format_bool(self.tso, self.soc.has_tso())
    }

    /// Whether multi-queue RX is active, flagged when the SoC says otherwise.
    pub fn display_multi_rx(&self) -> (r: String)
        ensures
            r@ == flagged(mark(self.multi_rx), self.multi_rx != crate::soc::is_arm(self.soc)),
    {
        Self::format_bool(self.multi_rx, self.soc.has_multi_rx_queues())
    }

    /// Whether a cryptographic engine is detected, flagged when the SoC says otherwise.
    pub fn display_crypto_engine(&self) -> (r: String)
        ensures
            r@ == flagged(mark(self.crypto_engine), self.crypto_engine != (self.soc != SocModel::Unknown)),
    {
        Self::format_bool(self.crypto_engine, self.soc.has_crypto_engine())
    }

    /// Whether AES acceleration is detected, flagged when the SoC says otherwise.
    pub fn display_aes(&self) -> (r: String)
        ensures
            r@ == flagged(mark(self.aes), self.aes != (self.soc != SocModel::Unknown)),
    {
        Self::format_bool(self.aes, self.soc.has_aes_acceleration())
    }

    /// Whether SHA acceleration is detected, flagged when the SoC says otherwise.
    pub fn display_sha(&self) -> (r: String)
        ensures
            r@ == flagged(mark(self.sha), self.sha != (self.soc != SocModel::Unknown)),
    {
        Self::format_bool(self.sha, self.soc.has_sha_acceleration())
    }

    /// Whether a hardware TRNG is detected, flagged when the SoC says otherwise.
    pub fn display_trng(&self) -> (r: String)
        ensures
            r@ == flagged(mark(self.trng), self.trng != (self.soc != SocModel::Unknown)),
    {
        Self::format_bool(self.trng, self.soc.has_trng())
    }

    /// Whether Secure Boot is enabled, flagged when the SoC says otherwise.
    pub fn display_secure_boot(&self) -> (r: String)
        ensures
            r@ == flagged(mark(self.secure_boot), self.secure_boot != crate::soc::is_arm(self.soc)),
    {
        Self::format_bool(self.secure_boot, self.soc.has_secure_boot())
    }

    /// Whether ARM TrustZone (TEE) is available, flagged when the SoC says otherwise.
    pub fn display_trustzone(&self) -> (r: String)
        ensures
            r@ == flagged(mark(self.trustzone), self.trustzone != crate::soc::is_arm(self.soc)),
    {
        Self::format_bool(self.trustzone, self.soc.has_trustzone())
    }

    /// Formats a value for the UI, flagging it with a red exclamation mark when it differs
    /// from the expected one.
    pub fn format_value(actual: &Vec<char>, expected: &Vec<char>) -> (r: String)
        ensures
            r@ == flagged(actual@, actual@ != expected@),
    {
        let mut out = crate::text::slice_of(actual, 0, actual.len());
        assert(out@ =~= actual@);
        if !crate::text::eq_seq(actual, expected) {
            push_str(&mut out, " ❗");
        }
        string_of(&out)
    }

    /// Formats a count for the UI, flagged when it differs from the expected one.
    pub fn format_count(actual: usize, expected: usize) -> (r: String)
        ensures
            r@ == flagged(dec_str(actual as nat), actual != expected),
    {
        let a = dec_chars(actual as u64);
        let e = dec_chars(expected as u64);
        proof {
            if a@ == e@ {
                crate::text::lemma_dec_str_injective(actual as nat, expected as nat);
            }
        }
        Self::format_value(&a, &e)
    }

    /// Formats a capability for the UI ("✓" / "✗"), flagged when it differs from the
    /// expected one.
    pub fn format_bool(actual: bool, expected: bool) -> (r: String)
        ensures
            r@ == flagged(mark(actual), actual != expected),
    {
        let a = chars_of(if actual {
            "✓"
        } else {
            "✗"
        });
        let e = chars_of(if expected {
            "✓"
        } else {
            "✗"
        });
        proof {
            reveal_strlit("✓");
            reveal_strlit("✗");
            assert("✓"@[0] != "✗"@[0]);
        }
        Self::format_value(&a, &e)
    }
}

fn is_target(w: &Vec<char>) -> (r: bool)
    ensures
        r == target_clock_names().contains(w@),
{
    crate::platform::hardware::target_clock_check(w)
}

impl SocModel {
    /// The model detected from the `compatible` text (absent when unreadable).
    pub open spec fn detect_spec(compatible: Option<Seq<char>>) -> SocModel {
        match compatible {
            Some(t) => crate::soc::soc_of_text(lowercase(crate::text::trim_nul(t))),
            None => SocModel::Unknown,
        }
    }

    /// The display name of a model.
    pub open spec fn display_name_spec(self) -> Seq<char> {
        match self {
            SocModel::Mt7988 => "MT7988 (Filogic 880)"@,
            SocModel::Mt7986 => "MT7986 (Filogic 830)"@,
            SocModel::Mt7981 => "MT7981 (Filogic 820)"@,
            SocModel::Mt7621 => "MT7621 (MIPS)"@,
            SocModel::Unknown => "Unknown SoC"@,
        }
    }

    /// The number of packet processing engines of a model.
    pub open spec fn ppe_spec(self) -> nat {
        match self {
            SocModel::Mt7988 => 3,
            SocModel::Mt7986 => 2,
            SocModel::Mt7981 => 1,
            SocModel::Mt7621 => 1,
            SocModel::Unknown => 0,
        }
    }

    /// The number of wireless Ethernet dispatchers of a model.
    pub open spec fn wed_spec(self) -> nat {
        match self {
            SocModel::Mt7988 => 3,
            SocModel::Mt7986 => 2,
            SocModel::Mt7981 => 1,
            _ => 0,
        }
    }
}

} // verus!
