//! NIC offload features as the kernel's ethtool interface reports them.
//!
//! The kernel answers three requests: the number of features, their names (one 32-byte,
//! NUL-padded entry each), and blocks of 32 feature bits. The requests themselves are the
//! caller's business; this module reads the answers.
use vstd::prelude::*;
use vstd::utf8::encode_utf8;

verus! {

/// The NIC features that can be queried.
#[derive(Debug, Clone, Copy, PartialEq, Eq, Structural)]
pub enum NicFeature {
    Rss,
    RxChecksum,
    TxChecksum,
    Tso,
}

/// The kernel's answers for one interface: the feature name entries and the `active` word
/// of each feature block.
pub struct FeatureTable {
    /// The feature names, 32 bytes per feature.
    pub strings: Vec<u8>,
    /// The `active` bits of each block of 32 features, in order.
    pub active: Vec<u32>,
}

// ---------------------------------------------------------------------------
// Specification
// ---------------------------------------------------------------------------

/// The kernel names under which a feature may be reported; drivers differ in naming.
pub open spec fn feature_names_of(f: NicFeature) -> Seq<Seq<char>> {
    match f {
        NicFeature::Rss => seq!["rx-hashing"@, "receive-hashing"@],
        NicFeature::RxChecksum => seq!["rx-checksum"@],
        NicFeature::TxChecksum => seq![
            "tx-checksum-ip-generic"@,
            "tx-checksum-ipv4"@,
            "tx-checksum-ipv6"@,
        ],
        NicFeature::Tso => seq!["tx-tcp-segmentation"@],
    }
}

/// The number of name entries.
pub open spec fn entry_count(strings: Seq<u8>) -> int {
    strings.len() as int / 32
}

/// The `i`-th 32-byte name entry.
pub open spec fn entry(strings: Seq<u8>, i: int) -> Seq<u8> {
    strings.subrange(32 * i, 32 * i + 32)
}

/// The NUL-terminated name of entry `e` is `name`: `name` is a NUL-free prefix of `e`,
/// followed by a NUL byte unless it fills the entry.
pub open spec fn entry_names(e: Seq<u8>, name: Seq<u8>) -> bool {
    &&& name.len() <= e.len()
    &&& e.take(name.len() as int) == name
    &&& (name.len() < e.len() ==> e[name.len() as int] == 0)
    &&& forall|j: int| 0 <= j < name.len() ==> name[j] != 0
}

/// Entry `i` is the first whose name is `name`.
pub open spec fn is_first_match(strings: Seq<u8>, name: Seq<u8>, i: int) -> bool {
    &&& 0 <= i < entry_count(strings)
    &&& entry_names(entry(strings, i), name)
    &&& forall|j: int| 0 <= j < i ==> !entry_names(#[trigger] entry(strings, j), name)
}

/// The index of the first entry named `name`.
pub open spec fn first_match(strings: Seq<u8>, name: Seq<u8>) -> Option<int> {
    if exists|i: int| is_first_match(strings, name, i) {
        Some(choose|i: int| is_first_match(strings, name, i))
    } else {
        None
    }
}

/// Bit `b` of `w` is set.
pub open spec fn bit_set(w: u32, b: int) -> bool {
    (w >> (b as u32)) & 1u32 == 1u32
}

/// Whether the feature named `name` is reported active: its first entry's bit is set in the
/// `active` word of its block.
pub open spec fn name_active(t: FeatureTable, name: Seq<char>) -> bool {
    match first_match(t.strings@, encode_utf8(name)) {
        Some(i) => bit_set(t.active@[i / 32], i % 32),
        None => false,
    }
}

/// Whether some kernel name of `f` is reported active.
pub open spec fn feature_active(t: FeatureTable, f: NicFeature) -> bool {
    exists|k: int|
        0 <= k < feature_names_of(f).len() && name_active(t, #[trigger] feature_names_of(f)[k])
}

impl FeatureTable {
    /// One `active` word per block of 32 features.
    pub open spec fn wf(self) -> bool {
        self.active.len() == (entry_count(self.strings@) + 31) / 32
    }
}

// ---------------------------------------------------------------------------
// Implementation
// ---------------------------------------------------------------------------

/// Copies an interface name into the fixed-size, NUL-terminated `ifr_name` field: its first
/// fifteen bytes at most, then zeros.
pub fn copy_if_name(if_name: &str, dest: &mut [u8; 16])
    ensures
        ({
            let b = encode_utf8(if_name@);
            let n = if b.len() < 15 { b.len() as int } else { 15 };
            &&& forall|i: int| 0 <= i < n ==> final(dest)@[i] == b[i]
            &&& forall|i: int| n <= i < 16 ==> final(dest)@[i] == 0
        }),
        final(dest)@[15] == 0,
{
    let bytes = if_name.as_bytes();
    let copy_len: usize = if bytes.len() < 15 {
        bytes.len()
    } else {
        15
    };
    let mut i: usize = 0;
    while i < 16
        invariant
            i <= 16,
            copy_len <= 15,
            copy_len <= bytes@.len(),
            bytes@ == encode_utf8(if_name@),
            copy_len == (if bytes@.len() < 15 { bytes@.len() as int } else { 15 }),
            forall|k: int| 0 <= k < i && k < copy_len ==> dest@[k] == bytes@[k],
            forall|k: int| copy_len <= k < i ==> dest@[k] == 0,
        decreases 16 - i,
    {
        if i < copy_len {
            dest[i] = bytes[i];
        } else {
            dest[i] = 0;
        }
        i = i + 1;
    }
}

/// Whether entry `i` of `strings` names `name`.
fn entry_is(strings: &Vec<u8>, i: usize, name: &[u8]) -> (r: bool)
    requires
        i < entry_count(strings@),
    ensures
        r == entry_names(entry(strings@, i as int), name@),
{
    proof {
        assert(32 * i + 32 <= strings.len()) by (nonlinear_arith)
            requires
                i < strings.len() as int / 32,
        ;
    }
    let ghost e = entry(strings@, i as int);
    let base: usize = 32 * i;
    if name.len() > 32 {
        return false;
    }
    let mut j: usize = 0;
    while j < name.len()
        invariant
            j <= name@.len() <= 32,
            base == 32 * i,
            base + 32 <= strings@.len(),
            e == strings@.subrange(base as int, base + 32),
            forall|k: int| 0 <= k < j ==> e[k] == name@[k] && name@[k] != 0,
        decreases name.len() - j,
    {
        if strings[base + j] != name[j] || name[j] == 0 {
            return false;
        }
        j = j + 1;
    }
    assert(e.take(name@.len() as int) =~= name@);
    if name.len() < 32 {
        strings[base + name.len()] == 0
    } else {
        true
    }
}

/// The index of the first entry named `name`, as `ethtool` resolves a feature to its bit.
pub fn find_feature_index(strings: &Vec<u8>, name: &str) -> (r: Option<usize>)
    ensures
        match r {
            Some(i) => first_match(strings@, encode_utf8(name@)) == Some(i as int),
            None => first_match(strings@, encode_utf8(name@)) is None,
        },
{
    let target = name.as_bytes();
    let ghost t = encode_utf8(name@);
    let count = strings.len() / 32;
    let mut i: usize = 0;
    while i < count
        invariant
            i <= count,
            count == entry_count(strings@),
            target@ == t,
            t == encode_utf8(name@),
            forall|j: int| 0 <= j < i ==> !entry_names(#[trigger] entry(strings@, j), t),
        decreases count - i,
    {
        if entry_is(strings, i, target) {
            assert(is_first_match(strings@, t, i as int));
            proof {
                let c = choose|k: int| is_first_match(strings@, t, k);
                if c < i {
                    assert(!entry_names(entry(strings@, c), t));
                } else if c > i {
                    assert(!entry_names(entry(strings@, i as int), t));
                }
            }
            return Some(i);
        }
        i = i + 1;
    }
    proof {
        if exists|k: int| is_first_match(strings@, t, k) {
            let c = choose|k: int| is_first_match(strings@, t, k);
            assert(!entry_names(entry(strings@, c), t));
        }
    }
    None
}

/// Whether bit `idx` of the feature blocks is set.
pub fn bit_active(active: &Vec<u32>, idx: usize) -> (r: bool)
    requires
        idx / 32 < active@.len(),
    ensures
        r == bit_set(active@[(idx / 32) as int], (idx % 32) as int),
{
    let w = active[idx / 32];
    let b = (idx % 32) as u32;
    let r = (w & (1u32 << b)) != 0;
    assert(r == ((w >> b) & 1u32 == 1u32)) by (bit_vector)
        requires
            b < 32,
            r == ((w & (1u32 << b)) != 0),
    ;
    r
}

/// Whether the feature named `feature_name` is reported active.
pub fn check_modern_feature(table: &FeatureTable, feature_name: &str) -> (r: bool)
    requires
        table.wf(),
    ensures
        r == name_active(*table, feature_name@),
{
    match find_feature_index(&table.strings, feature_name) {
        Some(idx) => {
            assert(idx / 32 < table.active.len()) by (nonlinear_arith)
                requires
                    idx < entry_count(table.strings@),
                    table.active.len() == (entry_count(table.strings@) + 31) / 32,
            ;
            bit_active(&table.active, idx)
        },
        None => false,
    }
}

/// Whether `feature` is active on the interface that `table` describes; with no table
/// (the interface could not be queried), no feature is.
pub fn check_feature(table: &Option<FeatureTable>, feature: NicFeature) -> (r: bool)
    requires
        table matches Some(t) ==> t.wf(),
    ensures
        r == match *table {
            Some(t) => feature_active(t, feature),
            None => false,
        },
{
    let t = match table {
        Some(t) => t,
        None => return false,
    };
    let names: Vec<&'static str> = match feature {
        NicFeature::Rss => vec!["rx-hashing", "receive-hashing"],
        NicFeature::RxChecksum => vec!["rx-checksum"],
        NicFeature::TxChecksum => vec![
            "tx-checksum-ip-generic",
            "tx-checksum-ipv4",
            "tx-checksum-ipv6",
        ],
        NicFeature::Tso => vec!["tx-tcp-segmentation"],
    };
    let ghost all = feature_names_of(feature);
    assert(names@.map_values(|s: &'static str| s@) =~= all);
    let mut k: usize = 0;
    while k < names.len()
        invariant
            k <= names.len(),
            t.wf(),
            *table == Some(*t),
            names@.map_values(|s: &'static str| s@) == all,
            all == feature_names_of(feature),
            forall|j: int| 0 <= j < k ==> !name_active(*t, #[trigger] all[j]),
        decreases names.len() - k,
    {
        assert(all[k as int] == names@[k as int]@);
        if check_modern_feature(t, names[k]) {
            assert(name_active(*t, all[k as int]));
            assert(feature_active(*t, feature));
            return true;
        }
        k = k + 1;
    }
    false
}

/// Each feature is read under its kernel names: TSO as `tx-tcp-segmentation`; RSS as
/// `rx-hashing` or `receive-hashing`; RX checksumming as `rx-checksum`; TX checksumming as
/// `tx-checksum-ip-generic`, `tx-checksum-ipv4` or `tx-checksum-ipv6`.
pub proof fn law_feature_kernel_names(t: FeatureTable)
    ensures
        feature_active(t, NicFeature::Tso) <==> name_active(t, "tx-tcp-segmentation"@),
        feature_active(t, NicFeature::Rss) <==> name_active(t, "rx-hashing"@) || name_active(
            t,
            "receive-hashing"@,
        ),
        feature_active(t, NicFeature::RxChecksum) <==> name_active(t, "rx-checksum"@),
        feature_active(t, NicFeature::TxChecksum) <==> name_active(t, "tx-checksum-ip-generic"@)
            || name_active(t, "tx-checksum-ipv4"@) || name_active(t, "tx-checksum-ipv6"@),
{
    let tso = feature_names_of(NicFeature::Tso);
    assert(tso[0] == "tx-tcp-segmentation"@);
    let rss = feature_names_of(NicFeature::Rss);
    assert(rss[0] == "rx-hashing"@ && rss[1] == "receive-hashing"@);
    let rx = feature_names_of(NicFeature::RxChecksum);
    assert(rx[0] == "rx-checksum"@);
    let tx = feature_names_of(NicFeature::TxChecksum);
    assert(tx[0] == "tx-checksum-ip-generic"@ && tx[1] == "tx-checksum-ipv4"@ && tx[2]
        == "tx-checksum-ipv6"@);
}

/// A feature named `name` is active exactly when, for the first entry whose NUL-terminated
/// name is the UTF-8 encoding of `name`, bit `i % 32` of the `active` word of block `i / 32`
/// is set; with no such entry it is not active.
pub proof fn law_name_active_bit(t: FeatureTable, name: Seq<char>, i: int)
    ensures
        is_first_match(t.strings@, encode_utf8(name), i) ==> (name_active(t, name) <==> (t.active@[i
            / 32] >> ((i % 32) as u32)) & 1u32 == 1u32),
        (forall|j: int|
            0 <= j < entry_count(t.strings@) ==> !entry_names(
                #[trigger] entry(t.strings@, j),
                encode_utf8(name),
            )) ==> !name_active(t, name),
{
    let n = encode_utf8(name);
    if is_first_match(t.strings@, n, i) {
        let c = choose|k: int| is_first_match(t.strings@, n, k);
        if c < i {
            assert(!entry_names(entry(t.strings@, c), n));
        } else if c > i {
            assert(!entry_names(entry(t.strings@, i), n));
        }
    }
    if exists|k: int| is_first_match(t.strings@, n, k) {
        let c = choose|k: int| is_first_match(t.strings@, n, k);
        assert(entry_names(entry(t.strings@, c), n));
    }
}

} // verus!
