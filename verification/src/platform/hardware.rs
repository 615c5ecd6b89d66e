//! Hardware capabilities of the router, gathered from kernel interfaces.
use vstd::prelude::*;
use super::soc::{arch_text, cpu_arch_of, soc_detected, SocModel};
use crate::text::{
    chars_of, contains, contains_str, dec_chars, dec_str, eq_str, is_digit, is_hex, lines,
    lowercase, lowercase_chars, parse_bounded, parse_unsigned, push_all, push_str, slice_of,
    split_lines, split_once, split_once_char, split_ws, starts_with, starts_with_seq,
    starts_with_str, string_of, tokens, trim, trim_ws, views,
};

verus! {

/// Raw readings of the kernel interfaces that hardware detection consults.
pub struct HardwareProbe {
    /// The device tree `compatible` node, as text (absent when unreadable).
    pub compatible: Option<String>,
    /// The number of CPUs that the system information library reports.
    pub sysinfo_cpu_count: usize,
    /// The brand string of the first CPU that the system information library reports.
    pub sysinfo_cpu_brand: Option<String>,
    /// The content of `/proc/cpuinfo` (empty when unreadable).
    pub cpuinfo: String,
    /// The content of `clk_rate` of each clock of [`HardwareInfo::target_clocks`], in order.
    pub clk_rates: Vec<Option<String>>,
    /// The content of the clock summary table.
    pub clk_summary: Option<String>,
    /// The content of `/proc/meminfo`.
    pub meminfo: Option<String>,
    /// The entry names of `/sys/bus/platform/devices` (empty when unreadable).
    pub platform_devices: Vec<String>,
    /// The entry names of the device tree `soc` node (empty when unreadable).
    pub soc_nodes: Vec<String>,
    /// The primary network interface.
    pub main_interface: Option<String>,
    /// Whether the primary interface has a second RX queue.
    pub rx_queue_present: bool,
    /// The content of `/proc/crypto`.
    pub crypto: Option<String>,
    /// The content of the hardware RNG's `rng_available`.
    pub rng_available: Option<String>,
    /// Whether `/dev/hwrng` exists.
    pub hwrng_present: bool,
    /// Whether the kernel's `securelevel` node exists.
    pub securelevel_present: bool,
    /// Whether the device tree `secure-boot` node exists.
    pub secure_boot_node_present: bool,
    /// Whether `/dev/tee0` exists.
    pub tee_device_present: bool,
    /// Whether `/sys/class/tee/tee0` exists.
    pub tee_class_present: bool,
}

/// Hardware capabilities and platform feature flags.
#[derive(Debug, Clone)]
pub struct HardwareInfo {
    pub soc: SocModel,
    pub cpu_cores: usize,
    pub cpu_arch: String,
    pub cpu_freq_mhz: Option<u64>,
    pub memory_mb: Option<u64>,
    pub memory_freq_mhz: Option<u64>,
    pub switch: String,
    pub flash: String,
    pub misc: String,
    pub ppe_count: usize,
    pub wed_count: usize,
    pub rss: bool,
    pub checksum_offload: bool,
    pub tso: bool,
    pub multi_rx: bool,
    pub crypto_engine: bool,
    pub aes: bool,
    pub sha: bool,
    pub trng: bool,
    pub secure_boot: bool,
    pub trustzone: bool,
}

impl Default for HardwareInfo {
    /// Nothing detected: an unknown SoC, no counts, no text, no feature.
    fn default() -> (r: Self)
        ensures
            r.soc == SocModel::Unknown,
            r.cpu_cores == 0,
            r.cpu_arch@.len() == 0,
            r.cpu_freq_mhz is None,
            r.memory_mb is None,
            r.memory_freq_mhz is None,
            r.switch@.len() == 0,
            r.flash@.len() == 0,
            r.misc@.len() == 0,
            r.ppe_count == 0,
            r.wed_count == 0,
            !r.rss && !r.checksum_offload && !r.tso && !r.multi_rx,
            !r.crypto_engine && !r.aes && !r.sha && !r.trng,
            !r.secure_boot && !r.trustzone,
    {
        HardwareInfo {
            soc: SocModel::Unknown,
            cpu_cores: 0,
            cpu_arch: String::new(),
            cpu_freq_mhz: None,
            memory_mb: None,
            memory_freq_mhz: None,
            switch: String::new(),
            flash: String::new(),
            misc: String::new(),
            ppe_count: 0,
            wed_count: 0,
            rss: false,
            checksum_offload: false,
            tso: false,
            multi_rx: false,
            crypto_engine: false,
            aes: false,
            sha: false,
            trng: false,
            secure_boot: false,
            trustzone: false,
        }
    }
}

// ---------------------------------------------------------------------------
// Specification
// ---------------------------------------------------------------------------

/// The view of an optional text.
pub open spec fn opt_text(o: Option<String>) -> Option<Seq<char>> {
    match o {
        Some(s) => Some(s@),
        None => None,
    }
}

/// The number of lines that begin with `pre`.
pub open spec fn count_prefixed(ls: Seq<Seq<char>>, pre: Seq<char>) -> nat
    decreases ls.len(),
{
    if ls.len() == 0 {
        0
    } else {
        (if starts_with(ls[0], pre) {
            1nat
        } else {
            0nat
        }) + count_prefixed(ls.drop_first(), pre)
    }
}

/// The number of CPU cores: as reported by the system information library, or else the
/// number of `processor` lines of `/proc/cpuinfo`, at least one.
pub open spec fn cores_of(sys_count: nat, cpuinfo: Seq<char>) -> nat {
    if sys_count == 0 {
        let n = count_prefixed(lines(cpuinfo), "processor"@);
        if n == 0 {
            1
        } else {
            n
        }
    } else {
        sys_count
    }
}

/// A CPU brand string that names something: non-empty after trimming, without `unknown`
/// in its lower-cased form.
pub open spec fn names_something(b: Seq<char>) -> bool {
    trim(b).len() > 0 && !contains(lowercase(trim(b)), "unknown"@)
}

/// The first line beginning with `model name` or `Hardware`.
pub open spec fn first_model_line(ls: Seq<Seq<char>>) -> Option<Seq<char>>
    decreases ls.len(),
{
    if ls.len() == 0 {
        None
    } else if starts_with(ls[0], "model name"@) || starts_with(ls[0], "Hardware"@) {
        Some(ls[0])
    } else {
        first_model_line(ls.drop_first())
    }
}

/// The generic CPU model name of `/proc/cpuinfo`: the trimmed value of the first
/// `model name` or `Hardware` line, when it names something.
pub open spec fn generic_model_of(cpuinfo: Seq<char>) -> Option<Seq<char>> {
    match first_model_line(lines(cpuinfo)) {
        Some(l) => match split_once(l, ':') {
            Some((_k, v)) => if names_something(v) {
                Some(trim(v))
            } else {
                None
            },
            None => None,
        },
        None => None,
    }
}

/// The CPU microarchitecture: the CPU brand when it names something; else the core named
/// by `/proc/cpuinfo` identification fields; else its generic model name; else the
/// architecture of the SoC model.
pub open spec fn arch_of(brand: Option<Seq<char>>, cpuinfo: Seq<char>, soc: SocModel) -> Seq<char> {
    match brand {
        Some(b) if names_something(b) => trim(b),
        _ => match cpu_arch_of(cpuinfo) {
            Some(a) => a,
            None => match generic_model_of(cpuinfo) {
                Some(g) => g,
                None => arch_text(soc),
            },
        },
    }
}

/// The names of the clocks that drive the CPU, in order of preference.
pub open spec fn target_clock_names() -> Seq<Seq<char>> {
    seq!["armpll"@, "mcu_armpll"@, "cpu_clk"@, "cpu"@]
}

/// A clock rate in MHz when it is at least 100 MHz.
pub open spec fn valid_mhz(hz: nat) -> Option<nat> {
    if hz / 1_000_000 >= 100 {
        Some(hz / 1_000_000)
    } else {
        None
    }
}

/// The first clock rate file whose trimmed content is a 64-bit number of at least 100 MHz.
pub open spec fn freq_from_rates(rates: Seq<Option<Seq<char>>>) -> Option<nat>
    decreases rates.len(),
{
    if rates.len() == 0 {
        None
    } else {
        match (match rates[0] {
            Some(c) => match parse_bounded(trim(c), false, 0xffff_ffff_ffff_ffff) {
                Some(hz) => valid_mhz(hz),
                None => None,
            },
            None => None,
        }) {
            Some(m) => Some(m),
            None => freq_from_rates(rates.drop_first()),
        }
    }
}

/// The first word that is a 64-bit number of at least 100 000 000 (Hz).
pub open spec fn first_large_rate(ws: Seq<Seq<char>>) -> Option<nat>
    decreases ws.len(),
{
    if ws.len() == 0 {
        None
    } else {
        match parse_bounded(ws[0], false, 0xffff_ffff_ffff_ffff) {
            Some(v) if v >= 100_000_000 => Some(v),
            _ => first_large_rate(ws.drop_first()),
        }
    }
}

/// The rate found in the clock summary table: the first row naming a target clock whose
/// later columns hold a rate of at least 100 MHz.
pub open spec fn freq_from_summary(rows: Seq<Seq<char>>) -> Option<nat>
    decreases rows.len(),
{
    if rows.len() == 0 {
        None
    } else {
        let p = tokens(rows[0]);
        match (if p.len() > 0 && target_clock_names().contains(p[0]) {
            match first_large_rate(p.drop_first()) {
                Some(hz) => valid_mhz(hz),
                None => None,
            }
        } else {
            None
        }) {
            Some(m) => Some(m),
            None => freq_from_summary(rows.drop_first()),
        }
    }
}

/// The rows of a table after its two header lines.
pub open spec fn after_header(ls: Seq<Seq<char>>) -> Seq<Seq<char>> {
    if ls.len() >= 2 {
        ls.skip(2)
    } else {
        seq![]
    }
}

/// The CPU frequency in MHz: from the clock rate files, else from the clock summary.
pub open spec fn freq_of(rates: Seq<Option<Seq<char>>>, summary: Option<Seq<char>>) -> Option<nat> {
    match freq_from_rates(rates) {
        Some(m) => Some(m),
        None => match summary {
            Some(t) => freq_from_summary(after_header(lines(t))),
            None => None,
        },
    }
}

/// The first line beginning with `pre`.
pub open spec fn first_prefixed(ls: Seq<Seq<char>>, pre: Seq<char>) -> Option<Seq<char>>
    decreases ls.len(),
{
    if ls.len() == 0 {
        None
    } else if starts_with(ls[0], pre) {
        Some(ls[0])
    } else {
        first_prefixed(ls.drop_first(), pre)
    }
}

/// The RAM size in MB: the second word of the first `MemTotal:` line (kB) divided by 1024.
pub open spec fn memory_of(meminfo: Option<Seq<char>>) -> Option<nat> {
    match meminfo {
        Some(t) => match first_prefixed(lines(t), "MemTotal:"@) {
            Some(l) => {
                let p = tokens(l);
                if p.len() >= 2 {
                    match parse_bounded(p[1], false, 0xffff_ffff_ffff_ffff) {
                        Some(kb) => Some(kb / 1024),
                        None => None,
                    }
                } else {
                    None
                }
            },
            None => None,
        },
        None => None,
    }
}

/// `s` with every leading copy of `p` removed (`str::trim_start_matches`).
pub open spec fn strip_all_prefix(s: Seq<char>, p: Seq<char>) -> Seq<char>
    decreases s.len(),
{
    if p.len() > 0 && starts_with(s, p) {
        strip_all_prefix(s.skip(p.len() as int), p)
    } else {
        s
    }
}

/// The base name of a device entry: before `@` (device tree form `wed@15010000`), after a
/// hexadecimal address and `.` (platform bus form `15010000.wed`), or the whole name.
pub open spec fn device_base(f: Seq<char>) -> Seq<char> {
    match split_once(f, '@') {
        Some((name, _addr)) => name,
        None => match split_once(f, '.') {
            Some((addr, name)) => if all_hex_seq(addr) {
                name
            } else {
                f
            },
            None => f,
        },
    }
}

/// Every character is a hexadecimal digit.
pub open spec fn all_hex_seq(s: Seq<char>) -> bool {
    forall|i: int| 0 <= i < s.len() ==> is_hex(#[trigger] s[i])
}

/// A device entry of the kind `kw`: its lower-cased base name, without `mtk_` prefixes, is
/// `kw` followed by nothing but digits (`wed`, `wed0`; not `wed_pcie`).
pub open spec fn device_matches(raw: Seq<char>, kw: Seq<char>) -> bool {
    lowered_device_matches(lowercase(raw), kw)
}

/// [`device_matches`] on an already lower-cased entry name.
pub open spec fn lowered_device_matches(f: Seq<char>, kw: Seq<char>) -> bool {
    let t = strip_all_prefix(device_base(f), "mtk_"@);
    starts_with(t, kw) && forall|i: int| kw.len() <= i < t.len() ==> is_digit(#[trigger] t[i])
}

/// The number of device entries of the kind `kw`.
pub open spec fn count_devices(names: Seq<Seq<char>>, kw: Seq<char>) -> nat
    decreases names.len(),
{
    if names.len() == 0 {
        0
    } else {
        (if device_matches(names[0], kw) {
            1nat
        } else {
            0nat
        }) + count_devices(names.drop_first(), kw)
    }
}

/// Devices of the kind `kw` on the platform bus, or, when none is there, in the device tree.
pub open spec fn platform_count(bus: Seq<Seq<char>>, soc: Seq<Seq<char>>, kw: Seq<char>) -> nat {
    let c = count_devices(bus, kw);
    if c == 0 {
        count_devices(soc, kw)
    } else {
        c
    }
}

/// The second `:`-separated field of a line (`split(':').nth(1)`), empty when there is none.
pub open spec fn second_field(l: Seq<char>) -> Seq<char> {
    match split_once(l, ':') {
        Some((_a, rest)) => match split_once(rest, ':') {
            Some((f, _b)) => f,
            None => rest,
        },
        None => seq![],
    }
}

/// A vendor hardware crypto driver (MediaTek, SafeXcel, EIP).
pub open spec fn hw_driver(d: Seq<char>) -> bool {
    contains(d, "mtk"@) || contains(d, "safexcel"@) || contains(d, "eip"@)
}

/// Whether `/proc/crypto` lines, read with the flag `in_algo` ("inside an entry for the
/// algorithm"), show a hardware driver for `algo`: a `name` line mentioning the algorithm
/// opens an entry, the next `driver` line of the entry decides it, and a blank line closes it.
pub open spec fn crypto_scan(ls: Seq<Seq<char>>, algo: Seq<char>, in_algo: bool) -> bool
    decreases ls.len(),
{
    if ls.len() == 0 {
        false
    } else {
        let l = ls[0];
        if starts_with(l, "name"@) && contains(l, algo) {
            crypto_scan(ls.drop_first(), algo, true)
        } else if starts_with(l, "driver"@) && in_algo {
            hw_driver(trim(second_field(l))) || crypto_scan(ls.drop_first(), algo, false)
        } else if l.len() == 0 {
            crypto_scan(ls.drop_first(), algo, false)
        } else {
            crypto_scan(ls.drop_first(), algo, in_algo)
        }
    }
}

/// Hardware acceleration of `algo` per `/proc/crypto`.
pub open spec fn crypto_of(content: Option<Seq<char>>, algo: Seq<char>) -> bool {
    match content {
        Some(t) => crypto_scan(lines(t), algo, false),
        None => false,
    }
}

/// A hardware RNG: a MediaTek or SafeXcel entry in `rng_available` when it is readable,
/// else the presence of `/dev/hwrng`.
pub open spec fn trng_of(rng_available: Option<Seq<char>>, hwrng_present: bool) -> bool {
    match rng_available {
        Some(c) => contains(c, "mtk"@) || contains(c, "safexcel"@),
        None => hwrng_present,
    }
}

/// The views of a vector of strings.
pub open spec fn string_views(v: Seq<String>) -> Seq<Seq<char>> {
    v.map_values(|s: String| s@)
}

/// The views of a vector of optional strings.
pub open spec fn opt_views(v: Seq<Option<String>>) -> Seq<Option<Seq<char>>> {
    v.map_values(|o: Option<String>| opt_text(o))
}

/// The first interface name beginning with `eth` or `lan`.
pub open spec fn first_eth_lan(names: Seq<Seq<char>>) -> Option<Seq<char>>
    decreases names.len(),
{
    if names.len() == 0 {
        None
    } else if starts_with(names[0], "eth"@) || starts_with(names[0], "lan"@) {
        Some(names[0])
    } else {
        first_eth_lan(names.drop_first())
    }
}

/// The conventional interface names tried when the interface list names none.
pub open spec fn fallback_names() -> Seq<Seq<char>> {
    seq!["eth0"@, "eth1"@, "lan0"@, "lan1"@]
}

/// The first fallback name whose presence flag is set.
pub open spec fn first_present(names: Seq<Seq<char>>, present: Seq<bool>) -> Option<Seq<char>>
    decreases names.len(),
{
    if names.len() == 0 || present.len() == 0 {
        None
    } else if present[0] {
        Some(names[0])
    } else {
        first_present(names.drop_first(), present.drop_first())
    }
}

/// The text of the RAM size and frequency.
pub open spec fn ram_text(mb: Option<u64>, freq: Option<u64>) -> Seq<char> {
    match (mb, freq) {
        (Some(m), Some(f)) => dec_str(m as nat) + " MB @ "@ + dec_str(f as nat) + " MHz"@,
        (Some(m), None) => dec_str(m as nat) + " MB"@,
        (None, _) => seq![],
    }
}

/// The CPU description: the architecture when it already states the core count (contains
/// `×`), else `<cores>× <architecture>`.
pub open spec fn cpu_base_text(cores: nat, arch: Seq<char>) -> Seq<char> {
    if arch.contains('×') {
        arch
    } else {
        dec_str(cores) + "× "@ + arch
    }
}

/// The frequency differs from the one the SoC model specifies (when that is known).
pub open spec fn freq_modified(soc_hz: nat, freq: Option<u64>) -> bool {
    match freq {
        Some(f) => soc_hz / 1_000_000 > 0 && f != soc_hz / 1_000_000,
        None => false,
    }
}

// ---------------------------------------------------------------------------
// Executable helpers
// ---------------------------------------------------------------------------

fn count_prefixed_lines(ls: &Vec<Vec<char>>, pre: &str) -> (r: usize)
    ensures
        r == count_prefixed(views(ls@), pre@),
{
    let ghost all = views(ls@);
    let mut n: usize = 0;
    let mut i: usize = 0;
    assert(all.skip(0) =~= all);
    while i < ls.len()
        invariant
            i <= ls.len(),
            n <= i,
            all == views(ls@),
            count_prefixed(all, pre@) == n + count_prefixed(all.skip(i as int), pre@),
        decreases ls.len() - i,
    {
        assert(all.skip(i as int)[0] == ls@[i as int]@);
        assert(all.skip(i as int).drop_first() =~= all.skip(i + 1));
        if starts_with_str(&ls[i], pre) {
            n = n + 1;
        }
        i = i + 1;
    }
    assert(all.skip(i as int) =~= Seq::<Seq<char>>::empty());
    n
}

fn first_prefixed_line(ls: &Vec<Vec<char>>, pre: &str) -> (r: Option<usize>)
    ensures
        r matches Some(i) ==> i < ls.len() && first_prefixed(views(ls@), pre@) == Some(ls@[i as int]@),
        r is None ==> first_prefixed(views(ls@), pre@) is None,
{
    let ghost all = views(ls@);
    let mut i: usize = 0;
    assert(all.skip(0) =~= all);
    while i < ls.len()
        invariant
            i <= ls.len(),
            all == views(ls@),
            first_prefixed(all, pre@) == first_prefixed(all.skip(i as int), pre@),
        decreases ls.len() - i,
    {
        assert(all.skip(i as int)[0] == ls@[i as int]@);
        assert(all.skip(i as int).drop_first() =~= all.skip(i + 1));
        if starts_with_str(&ls[i], pre) {
            return Some(i);
        }
        i = i + 1;
    }
    None
}

fn first_model_line_index(ls: &Vec<Vec<char>>) -> (r: Option<usize>)
    ensures
        r matches Some(i) ==> i < ls.len() && first_model_line(views(ls@)) == Some(ls@[i as int]@),
        r is None ==> first_model_line(views(ls@)) is None,
{
    let ghost all = views(ls@);
    let mut i: usize = 0;
    assert(all.skip(0) =~= all);
    while i < ls.len()
        invariant
            i <= ls.len(),
            all == views(ls@),
            first_model_line(all) == first_model_line(all.skip(i as int)),
        decreases ls.len() - i,
    {
        assert(all.skip(i as int)[0] == ls@[i as int]@);
        assert(all.skip(i as int).drop_first() =~= all.skip(i + 1));
        if starts_with_str(&ls[i], "model name") || starts_with_str(&ls[i], "Hardware") {
            return Some(i);
        }
        i = i + 1;
    }
    None
}

/// Whether a brand string names something (see [`names_something`]).
pub fn brand_names_something(b: &Vec<char>) -> (r: bool)
    ensures
        r == names_something(b@),
{
    let t = trim_ws(b);
    if t.len() == 0 {
        return false;
    }
    let l = lowercase_chars(&t);
    !contains_str(&l, "unknown")
}

fn strip_all_prefix_str(s: &Vec<char>, pat: &str) -> (r: Vec<char>)
    ensures
        r@ == strip_all_prefix(s@, pat@),
{
    let p = chars_of(pat);
    if p.len() == 0 {
        return slice_of(s, 0, s.len());
    }
    let mut i: usize = 0;
    assert(s@.skip(0) =~= s@);
    while p.len() <= s.len() - i && crate::text::starts_with_seq(&slice_of(s, i, s.len()), &p)
        invariant
            i <= s.len(),
            p@ == pat@,
            p.len() > 0,
            strip_all_prefix(s@, p@) == strip_all_prefix(s@.skip(i as int), p@),
        decreases s.len() - i,
    {
        assert(s@.subrange(i as int, s.len() as int) =~= s@.skip(i as int));
        assert(s@.skip(i as int).skip(p.len() as int) =~= s@.skip(i + p.len()));
        i = i + p.len();
    }
    proof {
        if p.len() > s.len() - i {
            assert(!starts_with(s@.skip(i as int), p@));
        } else {
            assert(s@.subrange(i as int, s.len() as int) =~= s@.skip(i as int));
        }
    }
    let r = slice_of(s, i, s.len());
    assert(r@ =~= s@.skip(i as int));
    r
}

fn all_hex(s: &Vec<char>) -> (r: bool)
    ensures
        r == all_hex_seq(s@),
{
    let mut i: usize = 0;
    while i < s.len()
        invariant
            i <= s.len(),
            forall|j: int| 0 <= j < i ==> is_hex(#[trigger] s@[j]),
        decreases s.len() - i,
    {
        let c = s[i];
        if !(('0' <= c && c <= '9') || ('a' <= c && c <= 'f') || ('A' <= c && c <= 'F')) {
            assert(!is_hex(s@[i as int]));
            return false;
        }
        i = i + 1;
    }
    true
}

fn digits_from(t: &Vec<char>, from: usize) -> (r: bool)
    ensures
        r == forall|i: int| from <= i < t@.len() ==> is_digit(#[trigger] t@[i]),
{
    if from >= t.len() {
        return true;
    }
    let mut i: usize = from;
    while i < t.len()
        invariant
            from <= i <= t.len(),
            forall|j: int| from <= j < i ==> is_digit(#[trigger] t@[j]),
        decreases t.len() - i,
    {
        if !('0' <= t[i] && t[i] <= '9') {
            assert(!is_digit(t@[i as int]));
            return false;
        }
        i = i + 1;
    }
    true
}

fn device_base_of(f: &Vec<char>) -> (r: Vec<char>)
    ensures
        r@ == device_base(f@),
{
    let at = split_once_char(f, '@');
    if let Some(p) = at {
        return p.0;
    }
    let dot = split_once_char(f, '.');
    if let Some(p) = dot {
        if all_hex(&p.0) {
            return p.1;
        }
        assert(split_once(f@, '.') == Some((p.0@, p.1@)));
        assert(device_base(f@) == f@);
    } else {
        assert(device_base(f@) == f@);
    }
    let r = slice_of(f, 0, f.len());
    assert(r@ =~= f@);
    r
}

/// Whether a device entry is of the kind `kw` (see [`device_matches`]).
pub fn device_entry_matches(raw: &str, kw: &str) -> (r: bool)
    ensures
        r == device_matches(raw@, kw@),
{
    let f = lowercase_chars(&chars_of(raw));
    device_lowered_matches(&f, kw)
}

/// Whether a lower-cased device entry name is of the kind `kw` (see
/// [`lowered_device_matches`]).
pub fn device_lowered_matches(f: &Vec<char>, kw: &str) -> (r: bool)
    ensures
        r == lowered_device_matches(f@, kw@),
{
    let base = device_base_of(f);
    let t = strip_all_prefix_str(&base, "mtk_");
    if !starts_with_str(&t, kw) {
        return false;
    }
    let k = chars_of(kw);
    digits_from(&t, k.len())
}

fn count_device_entries(names: &Vec<String>, kw: &str) -> (r: usize)
    ensures
        r == count_devices(string_views(names@), kw@),
{
    let ghost all = string_views(names@);
    let mut n: usize = 0;
    let mut i: usize = 0;
    assert(all.skip(0) =~= all);
    while i < names.len()
        invariant
            i <= names.len(),
            n <= i,
            all == string_views(names@),
            count_devices(all, kw@) == n + count_devices(all.skip(i as int), kw@),
        decreases names.len() - i,
    {
        assert(all.skip(i as int)[0] == names@[i as int]@);
        assert(all.skip(i as int).drop_first() =~= all.skip(i + 1));
        if device_entry_matches(names[i].as_str(), kw) {
            n = n + 1;
        }
        i = i + 1;
    }
    assert(all.skip(i as int) =~= Seq::<Seq<char>>::empty());
    n
}

fn parse_rate(c: &Vec<char>) -> (r: Option<u64>)
    ensures
        r matches Some(v) ==> parse_bounded(c@, false, 0xffff_ffff_ffff_ffff) == Some(v as nat),
        r is None ==> parse_bounded(c@, false, 0xffff_ffff_ffff_ffff) is None,
{
    parse_unsigned(c, false, 0xffff_ffff_ffff_ffff)
}

fn first_large_rate_of(ws: &Vec<Vec<char>>, from: usize) -> (r: Option<u64>)
    requires
        1 <= from <= ws.len(),
    ensures
        r matches Some(v) ==> first_large_rate(views(ws@).skip(from as int)) == Some(v as nat),
        r is None ==> first_large_rate(views(ws@).skip(from as int)) is None,
{
    let ghost all = views(ws@);
    let mut i: usize = from;
    while i < ws.len()
        invariant
            from <= i <= ws.len(),
            all == views(ws@),
            first_large_rate(all.skip(from as int)) == first_large_rate(all.skip(i as int)),
        decreases ws.len() - i,
    {
        assert(all.skip(i as int)[0] == ws@[i as int]@);
        assert(all.skip(i as int).drop_first() =~= all.skip(i + 1));
        match parse_rate(&ws[i]) {
            Some(v) => {
                if v >= 100_000_000 {
                    return Some(v);
                }
            },
            None => {},
        }
        i = i + 1;
    }
    None
}

/// Whether a word names one of the target clocks.
pub fn target_clock_check(w: &Vec<char>) -> (r: bool)
    ensures
        r == target_clock_names().contains(w@),
{
    let r = eq_str(w, "armpll") || eq_str(w, "mcu_armpll") || eq_str(w, "cpu_clk") || eq_str(
        w,
        "cpu",
    );
    proof {
        let t = target_clock_names();
        if r {
            if w@ == "armpll"@ {
                assert(t[0] == w@);
            } else if w@ == "mcu_armpll"@ {
                assert(t[1] == w@);
            } else if w@ == "cpu_clk"@ {
                assert(t[2] == w@);
            } else {
                assert(t[3] == w@);
            }
        } else {
            assert forall|j: int| 0 <= j < t.len() implies t[j] != w@ by {}
        }
    }
    r
}

/// The text of the RAM size and frequency (see [`ram_text`]).
pub fn ram_text_of(memory_mb: Option<u64>, memory_freq_mhz: Option<u64>) -> (r: String)
    ensures
        r@ == ram_text(memory_mb, memory_freq_mhz),
{
    match (memory_mb, memory_freq_mhz) {
        (Some(mb), Some(freq)) => {
            let mut v = dec_chars(mb);
            push_str(&mut v, " MB @ ");
            push_all(&mut v, &dec_chars(freq));
            push_str(&mut v, " MHz");
            string_of(&v)
        },
        (Some(mb), None) => {
            let mut v = dec_chars(mb);
            push_str(&mut v, " MB");
            string_of(&v)
        },
        (None, _) => String::new(),
    }
}

/// The lines of a text.
pub fn lines_of_text(t: &str) -> (r: Vec<Vec<char>>)
    ensures
        views(r@) == lines(t@),
{
    split_lines(&chars_of(t))
}

impl HardwareInfo {
    /// The capabilities that [`HardwareInfo::detect`] reads from `probe`.
    pub open spec fn detected_from(self, probe: HardwareProbe) -> bool {
        &&& self.soc == soc_detected(opt_text(probe.compatible))
        &&& self.cpu_cores == cores_of(probe.sysinfo_cpu_count as nat, probe.cpuinfo@)
        &&& self.cpu_arch@ == arch_of(opt_text(probe.sysinfo_cpu_brand), probe.cpuinfo@, self.soc)
        &&& opt_nat_u64(self.cpu_freq_mhz) == freq_of(opt_views(probe.clk_rates@), opt_text(probe.clk_summary))
        &&& opt_nat_u64(self.memory_mb) == memory_of(opt_text(probe.meminfo))
        &&& self.memory_freq_mhz is None
        &&& self.switch@ == "[Placeholder]"@
        &&& self.flash@ == "[Placeholder]"@
        &&& self.misc@ == "[Placeholder]"@
        &&& self.ppe_count == max_nat(
            self.soc.ppe_count_spec(),
            platform_count(string_views(probe.platform_devices@), string_views(probe.soc_nodes@), "ppe"@),
        )
        &&& self.wed_count == max_nat(
            self.soc.wed_count_spec(),
            platform_count(string_views(probe.platform_devices@), string_views(probe.soc_nodes@), "wed"@),
        )
        &&& !self.rss
        &&& !self.checksum_offload
        &&& !self.tso
        &&& self.multi_rx == (probe.main_interface is Some && probe.rx_queue_present)
        &&& self.crypto_engine == (platform_count(
            string_views(probe.platform_devices@),
            string_views(probe.soc_nodes@),
            "crypto"@,
        ) > 0 || platform_count(string_views(probe.platform_devices@), string_views(probe.soc_nodes@), "eip"@)
            > 0)
        &&& self.aes == crypto_of(opt_text(probe.crypto), "aes"@)
        &&& self.sha == crypto_of(opt_text(probe.crypto), "sha"@)
        &&& self.trng == trng_of(opt_text(probe.rng_available), probe.hwrng_present)
        &&& self.secure_boot == (probe.securelevel_present || probe.secure_boot_node_present)
        &&& self.trustzone == (probe.tee_device_present || probe.tee_class_present)
    }
}

impl HardwareInfo {
    /// The clocks whose `clk_rate` files are read, in order of preference.
    pub fn target_clocks() -> (r: Vec<&'static str>)
        ensures
            r@.map_values(|s: &'static str| s@) == target_clock_names(),
    {
        let r = vec!["armpll", "mcu_armpll", "cpu_clk", "cpu"];
        assert(r@.map_values(|s: &'static str| s@) =~= target_clock_names());
        r
    }

    /// The interface names tried, in order, when the interface list names no primary one.
    pub fn fallback_interfaces() -> (r: Vec<&'static str>)
        ensures
            r@.map_values(|s: &'static str| s@) == fallback_names(),
    {
        let r = vec!["eth0", "eth1", "lan0", "lan1"];
        assert(r@.map_values(|s: &'static str| s@) =~= fallback_names());
        r
    }

    /// Identifies the primary physical network interface: the first listed interface
    /// whose name begins with `eth` or `lan`, else the first of
    /// [`HardwareInfo::fallback_interfaces`] marked present.
    pub fn get_main_interface(names: &Vec<String>, fallback_present: &Vec<bool>) -> (r: Option<String>)
        ensures
            opt_text(r) == match first_eth_lan(string_views(names@)) {
                Some(n) => Some(n),
                None => first_present(fallback_names(), fallback_present@),
            },
    {
        let ghost all = string_views(names@);
        let mut i: usize = 0;
        assert(all.skip(0) =~= all);
        while i < names.len()
            invariant
                i <= names.len(),
                all == string_views(names@),
                first_eth_lan(all) == first_eth_lan(all.skip(i as int)),
            decreases names.len() - i,
        {
            assert(all.skip(i as int)[0] == names@[i as int]@);
            assert(all.skip(i as int).drop_first() =~= all.skip(i + 1));
            let n = chars_of(names[i].as_str());
            if starts_with_str(&n, "eth") || starts_with_str(&n, "lan") {
                return Some(string_of(&n));
            }
            i = i + 1;
        }
        assert(all.skip(i as int) =~= Seq::<Seq<char>>::empty());
        assert(first_eth_lan(all) is None);
        let cands = Self::fallback_interfaces();
        let ghost fs = fallback_names();
        let mut j: usize = 0;
        assert(fs.skip(0) =~= fs && fallback_present@.skip(0) =~= fallback_present@);
        while j < cands.len() && j < fallback_present.len()
            invariant
                j <= cands.len(),
                cands@.map_values(|s: &'static str| s@) == fs,
                fs == fallback_names(),
                first_eth_lan(all) is None,
                all == string_views(names@),
                j <= fallback_present.len(),
                first_present(fs, fallback_present@) == first_present(
                    fs.skip(j as int),
                    fallback_present@.skip(j as int),
                ),
            decreases cands.len() - j,
        {
            assert(cands@.map_values(|s: &'static str| s@)[j as int] == cands@[j as int]@);
            assert(fs.skip(j as int)[0] == cands@[j as int]@);
            assert(fallback_present@.skip(j as int)[0] == fallback_present@[j as int]);
            assert(fs.skip(j as int).drop_first() =~= fs.skip(j + 1));
            assert(fallback_present@.skip(j as int).drop_first() =~= fallback_present@.skip(j + 1));
            if fallback_present[j] {
                return Some(String::from_str(cands[j]));
            }
            j = j + 1;
        }
        assert(fs.skip(j as int).len() == 0 || fallback_present@.skip(j as int).len() == 0);
        None
    }

    /// The number of CPU cores (see [`cores_of`]).
    pub fn detect_cpu_cores(sysinfo_cpu_count: usize, cpuinfo: &str) -> (r: usize)
        ensures
            r == cores_of(sysinfo_cpu_count as nat, cpuinfo@),
    {
        if sysinfo_cpu_count == 0 {
            let ls = split_lines(&chars_of(cpuinfo));
            let n = count_prefixed_lines(&ls, "processor");
            if n == 0 {
                1
            } else {
                n
            }
        } else {
            sysinfo_cpu_count
        }
    }

    /// Extracts a generic CPU model name from `/proc/cpuinfo` (see [`generic_model_of`]).
    pub fn parse_generic_cpu_model(cpuinfo: &str) -> (r: Option<String>)
        ensures
            opt_text(r) == generic_model_of(cpuinfo@),
    {
        let ls = split_lines(&chars_of(cpuinfo));
        match first_model_line_index(&ls) {
            Some(i) => match split_once_char(&ls[i], ':') {
                Some((_k, v)) => {
                    if brand_names_something(&v) {
                        Some(string_of(&trim_ws(&v)))
                    } else {
                        None
                    }
                },
                None => None,
            },
            None => None,
        }
    }

    /// Detects the CPU microarchitecture (see [`arch_of`]).
    pub fn detect_cpu_arch(sysinfo_cpu_brand: Option<&str>, cpuinfo: &str, soc: &SocModel) -> (r:
        String)
        ensures
            r@ == arch_of(
                match sysinfo_cpu_brand {
                    Some(b) => Some(b@),
                    None => None,
                },
                cpuinfo@,
                *soc,
            ),
    {
        if let Some(b) = sysinfo_cpu_brand {
            let bc = chars_of(b);
            if brand_names_something(&bc) {
                return string_of(&trim_ws(&bc));
            }
        }
        match SocModel::parse_cpu_arch_from_cpuinfo(cpuinfo) {
            Some(a) => String::from_str(a),
            None => match Self::parse_generic_cpu_model(cpuinfo) {
                Some(g) => g,
                None => String::from_str(soc.architecture()),
            },
        }
    }

    /// Detects the CPU frequency in MHz from the clock rate files and the clock summary
    /// table (see [`freq_of`]).
    pub fn detect_cpu_frequency_mhz(clk_rates: &Vec<Option<String>>, clk_summary: Option<&str>) -> (r:
        Option<u64>)
        ensures
            opt_nat_u64(r) == freq_of(
                opt_views(clk_rates@),
                match clk_summary {
                    Some(t) => Some(t@),
                    None => None,
                },
            ),
    {
        let ghost rv = opt_views(clk_rates@);
        let mut i: usize = 0;
        assert(rv.skip(0) =~= rv);
        while i < clk_rates.len()
            invariant
                i <= clk_rates.len(),
                rv == opt_views(clk_rates@),
                freq_from_rates(rv) == freq_from_rates(rv.skip(i as int)),
            decreases clk_rates.len() - i,
        {
            assert(rv.skip(i as int)[0] == opt_text(clk_rates@[i as int]));
            assert(rv.skip(i as int).drop_first() =~= rv.skip(i + 1));
            match &clk_rates[i] {
                Some(c) => {
                    let t = trim_ws(&chars_of(c.as_str()));
                    match parse_rate(&t) {
                        Some(hz) => {
                            if hz / 1_000_000 >= 100 {
                                return Some(hz / 1_000_000);
                            }
                        },
                        None => {},
                    }
                },
                None => {},
            }
            i = i + 1;
        }
        assert(rv.skip(i as int) =~= Seq::<Option<Seq<char>>>::empty());
        assert(freq_from_rates(rv) is None);
        match clk_summary {
            Some(t) => {
                let ls = split_lines(&chars_of(t));
                let ghost all = views(ls@);
                if ls.len() < 2 {
                    return None;
                }
                let mut k: usize = 2;
                assert(after_header(all) =~= all.skip(2));
                while k < ls.len()
                    invariant
                        2 <= k <= ls.len(),
                        all == views(ls@),
                        all == lines(t@),
                        rv == opt_views(clk_rates@),
                        freq_from_rates(rv) is None,
                        freq_of(
                            rv,
                            match clk_summary {
                                Some(t) => Some(t@),
                                None => None,
                            },
                        ) == freq_from_summary(after_header(all)),
                        freq_from_summary(after_header(all)) == freq_from_summary(all.skip(k as int)),
                    decreases ls.len() - k,
                {
                    assert(all.skip(k as int)[0] == ls@[k as int]@);
                    assert(all.skip(k as int).drop_first() =~= all.skip(k + 1));
                    let p = split_ws(&ls[k]);
                    if p.len() > 0 {
                        assert(views(p@)[0] == p@[0]@);
                    }
                    if p.len() > 0 && target_clock_check(&p[0]) {
                        assert(views(p@).drop_first() =~= views(p@).skip(1));
                        match first_large_rate_of(&p, 1) {
                            Some(hz) => {
                                if hz / 1_000_000 >= 100 {
                                    return Some(hz / 1_000_000);
                                }
                            },
                            None => {},
                        }
                    }
                    k = k + 1;
                }
                None
            },
            None => None,
        }
    }

    /// Detects the RAM size in MB from `/proc/meminfo` (see [`memory_of`]).
    pub fn detect_memory_mb(meminfo: Option<&str>) -> (r: Option<u64>)
        ensures
            opt_nat_u64(r) == memory_of(
                match meminfo {
                    Some(t) => Some(t@),
                    None => None,
                },
            ),
    {
        match meminfo {
            Some(t) => {
                let ls = split_lines(&chars_of(t));
                match first_prefixed_line(&ls, "MemTotal:") {
                    Some(i) => {
                        let p = split_ws(&ls[i]);
                        if p.len() >= 2 {
                            match parse_rate(&p[1]) {
                                Some(kb) => Some(kb / 1024),
                                None => None,
                            }
                        } else {
                            None
                        }
                    },
                    None => None,
                }
            },
            None => None,
        }
    }

    /// Detects the RAM frequency in MHz: not determined yet.
    pub fn detect_memory_freq_mhz() -> (r: Option<u64>)
        ensures
            r is None,
    {
        None
    }

    /// Describes the onboard flash storage: a placeholder for now.
    pub fn detect_flash() -> (r: String)
        ensures
            r@ == "[Placeholder]"@,
    {
        String::from_str("[Placeholder]")
    }

    /// Describes the Ethernet switch chips: a placeholder for now.
    pub fn detect_switch() -> (r: String)
        ensures
            r@ == "[Placeholder]"@,
    {
        String::from_str("[Placeholder]")
    }

    /// Describes auxiliary hardware interfaces: a placeholder for now.
    pub fn detect_misc() -> (r: String)
        ensures
            r@ == "[Placeholder]"@,
    {
        String::from_str("[Placeholder]")
    }

    /// Counts the platform devices of a kind (see [`platform_count`]).
    pub fn count_platform_devices(platform_devices: &Vec<String>, soc_nodes: &Vec<String>, keyword: &str) -> (r:
        usize)
        ensures
            r == platform_count(string_views(platform_devices@), string_views(soc_nodes@), keyword@),
    {
        let c = count_device_entries(platform_devices, keyword);
        if c == 0 {
            count_device_entries(soc_nodes, keyword)
        } else {
            c
        }
    }

    /// Verifies hardware offload status for a network feature: not queried yet, so never set.
    pub fn check_nic_feature(_iface: &Option<String>, _feature: &str) -> (r: bool)
        ensures
            !r,
    {
        false
    }

    /// Multi-queue RX: the primary interface exists and has a second RX queue.
    pub fn check_multi_rx(iface: &Option<String>, rx_queue_present: bool) -> (r: bool)
        ensures
            r == (iface is Some && rx_queue_present),
    {
        match iface {
            Some(_) => rx_queue_present,
            None => false,
        }
    }

    /// Hardware acceleration of `algo` per the content of `/proc/crypto` (see [`crypto_of`]).
    pub fn check_crypto_algo(crypto: Option<&str>, algo: &str) -> (r: bool)
        ensures
            r == crypto_of(
                match crypto {
                    Some(t) => Some(t@),
                    None => None,
                },
                algo@,
            ),
    {
        let t = match crypto {
            Some(t) => t,
            None => return false,
        };
        let ls = split_lines(&chars_of(t));
        let ghost all = views(ls@);
        let mut in_algo = false;
        let mut i: usize = 0;
        assert(all.skip(0) =~= all);
        while i < ls.len()
            invariant
                i <= ls.len(),
                all == views(ls@),
                crypto_of(
                    match crypto {
                        Some(t) => Some(t@),
                        None => None,
                    },
                    algo@,
                ) == crypto_scan(all, algo@, false),
                crypto_scan(all, algo@, false) == crypto_scan(all.skip(i as int), algo@, in_algo),
            decreases ls.len() - i,
        {
            let l = &ls[i];
            assert(all.skip(i as int)[0] == l@);
            assert(all.skip(i as int).drop_first() =~= all.skip(i + 1));
            if starts_with_str(l, "name") && contains_str(l, algo) {
                in_algo = true;
            } else if starts_with_str(l, "driver") && in_algo {
                let field = match split_once_char(l, ':') {
                    Some((_a, rest)) => match split_once_char(&rest, ':') {
                        Some((f, _b)) => f,
                        None => rest,
                    },
                    None => Vec::new(),
                };
                assert(field@ =~= second_field(l@));
                let driver = trim_ws(&field);
                if contains_str(&driver, "mtk") || contains_str(&driver, "safexcel") || contains_str(
                    &driver,
                    "eip",
                ) {
                    return true;
                }
                in_algo = false;
            } else if l.len() == 0 {
                in_algo = false;
            }
            i = i + 1;
        }
        false
    }

    /// Presence of a hardware random number generator (see [`trng_of`]).
    pub fn check_trng(rng_available: Option<&str>, hwrng_present: bool) -> (r: bool)
        ensures
            r == trng_of(
                match rng_available {
                    Some(t) => Some(t@),
                    None => None,
                },
                hwrng_present,
            ),
    {
        match rng_available {
            Some(c) => {
                let v = chars_of(c);
                contains_str(&v, "mtk") || contains_str(&v, "safexcel")
            },
            None => hwrng_present,
        }
    }

    /// Secure boot indicators: the kernel `securelevel` node or the device tree
    /// `secure-boot` node.
    pub fn check_secure_boot(securelevel_present: bool, secure_boot_node_present: bool) -> (r: bool)
        ensures
            r == (securelevel_present || secure_boot_node_present),
    {
        securelevel_present || secure_boot_node_present
    }

    /// Detects hardware components and system capabilities from the probe readings.
    pub fn detect(probe: &HardwareProbe) -> (r: HardwareInfo)
        ensures
            r.detected_from(*probe),
    {
        let soc = SocModel::detect(
            match &probe.compatible {
                Some(t) => Some(t.as_str()),
                None => None,
            },
        );
        let iface = &probe.main_interface;
        let devs = &probe.platform_devices;
        let nodes = &probe.soc_nodes;
        let ppe = Self::count_platform_devices(devs, nodes, "ppe");
        let wed = Self::count_platform_devices(devs, nodes, "wed");
        let crypto_text = match &probe.crypto {
            Some(t) => Some(t.as_str()),
            None => None,
        };
        HardwareInfo {
            soc,
            cpu_cores: Self::detect_cpu_cores(probe.sysinfo_cpu_count, probe.cpuinfo.as_str()),
            cpu_arch: Self::detect_cpu_arch(
                match &probe.sysinfo_cpu_brand {
                    Some(b) => Some(b.as_str()),
                    None => None,
                },
                probe.cpuinfo.as_str(),
                &soc,
            ),
            cpu_freq_mhz: Self::detect_cpu_frequency_mhz(
                &probe.clk_rates,
                match &probe.clk_summary {
                    Some(t) => Some(t.as_str()),
                    None => None,
                },
            ),
            memory_mb: Self::detect_memory_mb(
                match &probe.meminfo {
                    Some(t) => Some(t.as_str()),
                    None => None,
                },
            ),
            memory_freq_mhz: Self::detect_memory_freq_mhz(),
            switch: Self::detect_switch(),
            flash: Self::detect_flash(),
            misc: Self::detect_misc(),
            ppe_count: if soc.ppe_count() >= ppe {
                soc.ppe_count()
            } else {
                ppe
            },
            wed_count: if soc.wed_count() >= wed {
                soc.wed_count()
            } else {
                wed
            },
            rss: Self::check_nic_feature(iface, "rx-hashing") || Self::check_nic_feature(
                iface,
                "rx-vlan-hw-parse",
            ),
            checksum_offload: Self::check_nic_feature(iface, "tx-checksum")
                || Self::check_nic_feature(iface, "rx-checksum"),
            tso: Self::check_nic_feature(iface, "tcp-segmentation-offload"),
            multi_rx: Self::check_multi_rx(iface, probe.rx_queue_present),
            crypto_engine: Self::count_platform_devices(devs, nodes, "crypto") > 0
                || Self::count_platform_devices(devs, nodes, "eip") > 0,
            aes: Self::check_crypto_algo(crypto_text, "aes"),
            sha: Self::check_crypto_algo(crypto_text, "sha"),
            trng: Self::check_trng(
                match &probe.rng_available {
                    Some(t) => Some(t.as_str()),
                    None => None,
                },
                probe.hwrng_present,
            ),
            secure_boot: Self::check_secure_boot(
                probe.securelevel_present,
                probe.secure_boot_node_present,
            ),
            trustzone: probe.tee_device_present || probe.tee_class_present,
        }
    }

    /// Returns a human-readable string for the System on Chip (SoC) model.
    pub fn display_soc(&self) -> (r: String)
        ensures
            r@ == self.soc.display_name_spec(),
    {
        String::from_str(self.soc.display_name())
    }

    /// Assembles RAM information into a human-readable string.
    pub fn display_ram(&self) -> (r: String)
        ensures
            r@ == ram_text(self.memory_mb, self.memory_freq_mhz),
    {
        ram_text_of(self.memory_mb, self.memory_freq_mhz)
    }

    /// The CPU description shown in the hardware panel (see [`cpu_base_text`]).
    pub fn cpu_text(&self) -> (r: String)
        ensures
            r@ == cpu_base_text(self.cpu_cores as nat, self.cpu_arch@),
    {
        let arch = chars_of(self.cpu_arch.as_str());
        match crate::text::find_char(&arch, '×') {
            Some(_) => {
                proof {
                    crate::text::lemma_index_of(arch@, '×');
                    assert(arch@.contains('×'));
                }
                string_of(&arch)
            },
            None => {
                proof {
                    crate::text::lemma_index_of(arch@, '×');
                }
                let mut v = dec_chars(self.cpu_cores as u64);
                push_str(&mut v, "× ");
                push_all(&mut v, &arch);
                string_of(&v)
            },
        }
    }

    /// Whether the CPU runs at another frequency than the SoC model specifies.
    pub fn cpu_freq_modified(&self) -> (r: bool)
        ensures
            r == freq_modified(core_hz_of(self.soc), self.cpu_freq_mhz),
    {
        match self.cpu_freq_mhz {
            Some(f) => {
                let expected = self.soc.core_frequency_hz() / 1_000_000;
                expected > 0 && f != expected
            },
            None => false,
        }
    }
}

/// The view of an optional 64-bit number.
pub open spec fn opt_nat_u64(o: Option<u64>) -> Option<nat> {
    match o {
        Some(x) => Some(x as nat),
        None => None,
    }
}

/// The larger of two numbers.
pub open spec fn max_nat(a: nat, b: nat) -> nat {
    if a >= b {
        a
    } else {
        b
    }
}

/// The core frequency of a model in Hz.
pub open spec fn core_hz_of(m: SocModel) -> nat {
    super::soc::core_hz(m)
}

impl SocModel {
    /// The display name of a model.
    pub open spec fn display_name_spec(self) -> Seq<char> {
        match self {
            SocModel::Mt7988 => "MT7988 (Filogic 880)"@,
            SocModel::Mt7987 => "MT7987 (Filogic 850)"@,
            SocModel::Mt7986 => "MT7986 (Filogic 830)"@,
            SocModel::Mt7981 => "MT7981 (Filogic 820)"@,
            SocModel::Mt7622 => "MT7622 (Filogic 800)"@,
            SocModel::Mt7629 => "MT7629"@,
            SocModel::Mt7621 => "MT7621 (MIPS)"@,
            SocModel::Mt7628 => "MT7628 (MIPS)"@,
            SocModel::Mt7620 => "MT7620 (MIPS)"@,
            SocModel::Unknown => "Unknown SoC"@,
        }
    }

    /// The number of packet processing engines of a model.
    pub open spec fn ppe_count_spec(self) -> nat {
        super::soc::ppe_of(self)
    }

    /// The number of wireless Ethernet dispatchers of a model.
    pub open spec fn wed_count_spec(self) -> nat {
        super::soc::wed_of(self)
    }
}

// ---------------------------------------------------------------------------
// The `/proc/crypto` scan as a property of entries
// ---------------------------------------------------------------------------

/// A `name` line that mentions `algo`.
pub open spec fn names_algo(l: Seq<char>, algo: Seq<char>) -> bool {
    starts_with(l, "name"@) && contains(l, algo)
}

/// A `driver` line whose field (the text between the first and the second `:`, trimmed)
/// names a hardware driver.
pub open spec fn hw_driver_line(l: Seq<char>) -> bool {
    starts_with(l, "driver"@) && hw_driver(trim(second_field(l)))
}

/// A line that neither closes an entry (a blank line) nor decides it (a `driver` line).
pub open spec fn entry_continues(l: Seq<char>) -> bool {
    l.len() > 0 && !starts_with(l, "driver"@)
}

/// Line `j` is a hardware `driver` line that follows the `name` line `i` for `algo`, with no
/// blank line and no other `driver` line between them.
pub open spec fn hw_entry(ls: Seq<Seq<char>>, algo: Seq<char>, i: int, j: int) -> bool {
    &&& 0 <= i < j < ls.len()
    &&& names_algo(ls[i], algo)
    &&& hw_driver_line(ls[j])
    &&& forall|k: int| i < k < j ==> entry_continues(#[trigger] ls[k])
}

/// Line `j` is a hardware `driver` line that no blank line and no other `driver` line
/// precedes.
pub open spec fn pending_hw(ls: Seq<Seq<char>>, j: int) -> bool {
    &&& 0 <= j < ls.len()
    &&& hw_driver_line(ls[j])
    &&& forall|k: int| 0 <= k < j ==> entry_continues(#[trigger] ls[k])
}

/// No line starts with both `name` and `driver`, and a blank line starts with neither.
proof fn lemma_line_kinds(l: Seq<char>)
    ensures
        starts_with(l, "name"@) ==> !starts_with(l, "driver"@),
        l.len() == 0 ==> !starts_with(l, "driver"@) && !starts_with(l, "name"@),
{
    reveal_strlit("name");
    reveal_strlit("driver");
    if starts_with(l, "name"@) && starts_with(l, "driver"@) {
        assert(l.take(4)[0] == l[0]);
        assert(l.take(6)[0] == l[0]);
        assert("name"@[0] != "driver"@[0]);
    }
}

/// An entry in the lines after the first is an entry, one line later, of all the lines.
proof fn lemma_entry_shift(ls: Seq<Seq<char>>, algo: Seq<char>, i: int, j: int)
    requires
        ls.len() > 0,
        hw_entry(ls.drop_first(), algo, i, j),
    ensures
        hw_entry(ls, algo, i + 1, j + 1),
{
    let r = ls.drop_first();
    assert(ls[i + 1] == r[i]);
    assert(ls[j + 1] == r[j]);
    assert forall|k: int| i + 1 < k < j + 1 implies entry_continues(#[trigger] ls[k]) by {
        assert(ls[k] == r[k - 1]);
    }
}

/// A pending hardware driver line decides the scan when it starts inside an entry.
proof fn lemma_pending_found(ls: Seq<Seq<char>>, algo: Seq<char>, j: int)
    requires
        pending_hw(ls, j),
    ensures
        crypto_scan(ls, algo, true),
    decreases j,
{
    let l = ls[0];
    let r = ls.drop_first();
    lemma_line_kinds(l);
    if j > 0 {
        assert(entry_continues(ls[0]));
        assert forall|k: int| 0 <= k < j - 1 implies entry_continues(#[trigger] r[k]) by {
            assert(r[k] == ls[k + 1]);
        }
        assert(r[j - 1] == ls[j]);
        lemma_pending_found(r, algo, j - 1);
    }
}

/// An entry with a hardware driver decides the scan, whatever the starting flag.
proof fn lemma_entry_found(ls: Seq<Seq<char>>, algo: Seq<char>, in_algo: bool, i: int, j: int)
    requires
        hw_entry(ls, algo, i, j),
    ensures
        crypto_scan(ls, algo, in_algo),
    decreases i,
{
    let l = ls[0];
    let r = ls.drop_first();
    lemma_line_kinds(l);
    if i == 0 {
        assert forall|k: int| 0 <= k < j - 1 implies entry_continues(#[trigger] r[k]) by {
            assert(r[k] == ls[k + 1]);
        }
        assert(r[j - 1] == ls[j]);
        lemma_pending_found(r, algo, j - 1);
    } else {
        assert(r[i - 1] == ls[i]);
        assert(r[j - 1] == ls[j]);
        assert forall|k: int| i - 1 < k < j - 1 implies entry_continues(#[trigger] r[k]) by {
            assert(r[k] == ls[k + 1]);
        }
        lemma_entry_found(r, algo, true, i - 1, j - 1);
        lemma_entry_found(r, algo, false, i - 1, j - 1);
    }
}

/// A scan that finds a hardware driver found it in an entry, or (starting inside an entry)
/// in a pending driver line.
proof fn lemma_scan_found(ls: Seq<Seq<char>>, algo: Seq<char>, in_algo: bool)
    requires
        crypto_scan(ls, algo, in_algo),
    ensures
        (exists|i: int, j: int| hw_entry(ls, algo, i, j)) || (in_algo && exists|j: int|
            pending_hw(ls, j)),
    decreases ls.len(),
{
    let l = ls[0];
    let r = ls.drop_first();
    lemma_line_kinds(l);
    if names_algo(l, algo) {
        lemma_scan_found(r, algo, true);
        if exists|i: int, j: int| hw_entry(r, algo, i, j) {
            let (i, j) = choose|i: int, j: int| hw_entry(r, algo, i, j);
            lemma_entry_shift(ls, algo, i, j);
        } else {
            let j = choose|j: int| pending_hw(r, j);
            assert forall|k: int| 0 < k < j + 1 implies entry_continues(#[trigger] ls[k]) by {
                assert(ls[k] == r[k - 1]);
            }
            assert(ls[j + 1] == r[j]);
            assert(hw_entry(ls, algo, 0, j + 1));
        }
    } else if starts_with(l, "driver"@) && in_algo {
        if hw_driver(trim(second_field(l))) {
            assert(pending_hw(ls, 0));
        } else {
            lemma_scan_found(r, algo, false);
            let (i, j) = choose|i: int, j: int| hw_entry(r, algo, i, j);
            lemma_entry_shift(ls, algo, i, j);
        }
    } else {
        let f = if l.len() == 0 {
            false
        } else {
            in_algo
        };
        lemma_scan_found(r, algo, f);
        if exists|i: int, j: int| hw_entry(r, algo, i, j) {
            let (i, j) = choose|i: int, j: int| hw_entry(r, algo, i, j);
            lemma_entry_shift(ls, algo, i, j);
        } else {
            let j = choose|j: int| pending_hw(r, j);
            assert forall|k: int| 0 <= k < j + 1 implies entry_continues(#[trigger] ls[k]) by {
                if k > 0 {
                    assert(ls[k] == r[k - 1]);
                }
            }
            assert(ls[j + 1] == r[j]);
            assert(pending_hw(ls, j + 1));
        }
    }
}

/// `/proc/crypto` shows hardware acceleration of `algo` exactly when some entry for the
/// algorithm has a hardware driver: a `driver` line whose field names a MediaTek, SafeXcel or
/// EIP driver follows a `name` line mentioning the algorithm, with no blank line and no other
/// `driver` line between them.
pub proof fn law_crypto_hw_driver_entry(content: Seq<char>, algo: Seq<char>)
    ensures
        crypto_of(Some(content), algo) <==> exists|i: int, j: int|
            hw_entry(lines(content), algo, i, j),
{
    let ls = lines(content);
    if crypto_of(Some(content), algo) {
        lemma_scan_found(ls, algo, false);
    }
    if exists|i: int, j: int| hw_entry(ls, algo, i, j) {
        let (i, j) = choose|i: int, j: int| hw_entry(ls, algo, i, j);
        lemma_entry_found(ls, algo, false, i, j);
    }
}

} // verus!
