//! The first-generation SoC table: the four MediaTek router chips supported at first.
use vstd::prelude::*;
use crate::text::{
    chars_of, contains, contains_str, lemma_contains_same_len, lowercase, lowercase_chars,
    trim_both, trim_nul,
};

verus! {

/// Represents the detected System on Chip (SoC) model of the device.
#[derive(Debug, PartialEq, Eq, Structural, Clone, Copy)]
pub enum SocModel {
    /// MediaTek Filogic 880 (Wi-Fi 7).
    Mt7988,
    /// MediaTek Filogic 830 (Wi-Fi 6).
    Mt7986,
    /// MediaTek Filogic 820 (Wi-Fi 6).
    Mt7981,
    /// MediaTek legacy (Wi-Fi 5 / MIPS).
    Mt7621,
    /// Not recognised.
    Unknown,
}

impl Default for SocModel {
    fn default() -> (r: Self)
        ensures
            r == SocModel::Unknown,
    {
        SocModel::Unknown
    }
}

/// The model named in (lower-cased) device tree `compatible` text.
pub open spec fn soc_of_text(t: Seq<char>) -> SocModel {
    if contains(t, "mt7988"@) {
        SocModel::Mt7988
    } else if contains(t, "mt7986"@) {
        SocModel::Mt7986
    } else if contains(t, "mt7981"@) {
        SocModel::Mt7981
    } else if contains(t, "mt7621"@) {
        SocModel::Mt7621
    } else {
        SocModel::Unknown
    }
}

/// The chips with an ARM (Cortex-A) core.
pub open spec fn is_arm(m: SocModel) -> bool {
    m is Mt7988 || m is Mt7986 || m is Mt7981
}

impl SocModel {
    /// Detects the SoC model from the content of the device tree `compatible` node (absent
    /// when the node cannot be read).
    pub fn detect(compatible: Option<&str>) -> (r: SocModel)
        ensures
            r == match compatible {
                Some(t) => soc_of_text(lowercase(trim_nul(t@))),
                None => SocModel::Unknown,
            },
    {
        match compatible {
            Some(t) => {
                let content = lowercase_chars(&trim_both(&chars_of(t), true));
                Self::from_text(&content)
            },
            None => SocModel::Unknown,
        }
    }

    /// The model named in lower-cased `compatible` text (see [`soc_of_text`]).
    pub fn from_text(t: &Vec<char>) -> (r: SocModel)
        ensures
            r == soc_of_text(t@),
    {
        if contains_str(t, "mt7988") {
            SocModel::Mt7988
        } else if contains_str(t, "mt7986") {
            SocModel::Mt7986
        } else if contains_str(t, "mt7981") {
            SocModel::Mt7981
        } else if contains_str(t, "mt7621") {
            SocModel::Mt7621
        } else {
            SocModel::Unknown
        }
    }

    /// Returns a human-readable display name for the UI.
    pub fn display_name(&self) -> (r: &'static str)
        ensures
            r@ == match *self {
                SocModel::Mt7988 => "MT7988 (Filogic 880)"@,
                SocModel::Mt7986 => "MT7986 (Filogic 830)"@,
                SocModel::Mt7981 => "MT7981 (Filogic 820)"@,
                SocModel::Mt7621 => "MT7621 (MIPS)"@,
                SocModel::Unknown => "Unknown SoC"@,
            },
    {
        match self {
            SocModel::Mt7988 => "MT7988 (Filogic 880)",
            SocModel::Mt7986 => "MT7986 (Filogic 830)",
            SocModel::Mt7981 => "MT7981 (Filogic 820)",
            SocModel::Mt7621 => "MT7621 (MIPS)",
            SocModel::Unknown => "Unknown SoC",
        }
    }

    /// Returns the CPU architecture and core count of the SoC.
    pub fn architecture(&self) -> (r: &'static str)
        ensures
            r@ == match *self {
                SocModel::Mt7988 => "4× Cortex-A73"@,
                SocModel::Mt7986 => "4× Cortex-A53"@,
                SocModel::Mt7981 => "2× Cortex-A53"@,
                SocModel::Mt7621 => "2× MIPS1004Kc"@,
                SocModel::Unknown => "Unknown"@,
            },
    {
        match self {
            SocModel::Mt7988 => "4× Cortex-A73",
            SocModel::Mt7986 => "4× Cortex-A53",
            SocModel::Mt7981 => "2× Cortex-A53",
            SocModel::Mt7621 => "2× MIPS1004Kc",
            SocModel::Unknown => "Unknown",
        }
    }

    /// Returns the maximum CPU core frequency in Hertz (Hz); 0 if the SoC model is unknown.
    pub fn core_frequency_hz(&self) -> (r: u64)
        ensures
            r == match *self {
                SocModel::Mt7988 => 1_800_000_000u64,
                SocModel::Mt7986 => 2_000_000_000u64,
                SocModel::Mt7981 => 1_300_000_000u64,
                SocModel::Mt7621 => 880_000_000u64,
                SocModel::Unknown => 0u64,
            },
            r == 0 <==> *self == SocModel::Unknown,
    {
        match self {
            SocModel::Mt7988 => 1_800_000_000,
            SocModel::Mt7986 => 2_000_000_000,
            SocModel::Mt7981 => 1_300_000_000,
            SocModel::Mt7621 => 880_000_000,
            SocModel::Unknown => 0,
        }
    }

    /// Returns the number of Packet Processing Engines (PPE) available on the SoC.
    pub fn ppe_count(&self) -> (r: usize)
        ensures
            r == match *self {
                SocModel::Mt7988 => 3usize,
                SocModel::Mt7986 => 2usize,
                SocModel::Mt7981 => 1usize,
                SocModel::Mt7621 => 1usize,
                SocModel::Unknown => 0usize,
            },
    {
        match self {
            SocModel::Mt7988 => 3,
            SocModel::Mt7986 => 2,
            SocModel::Mt7981 => 1,
            SocModel::Mt7621 => 1,
            SocModel::Unknown => 0,
        }
    }

    /// Returns the number of Wireless Ethernet Dispatcher (WED) modules available on the SoC.
    pub fn wed_count(&self) -> (r: usize)
        ensures
            r == match *self {
                SocModel::Mt7988 => 3usize,
                SocModel::Mt7986 => 2usize,
                SocModel::Mt7981 => 1usize,
                SocModel::Mt7621 => 0usize,
                SocModel::Unknown => 0usize,
            },
    {
        match self {
            SocModel::Mt7988 => 3,
            SocModel::Mt7986 => 2,
            SocModel::Mt7981 => 1,
            SocModel::Mt7621 => 0,
            SocModel::Unknown => 0,
        }
    }

    /// Indicates whether the network subsystem supports Receive Side Scaling (RSS): the
    /// Filogic platforms.
    pub fn has_rss(&self) -> (r: bool)
        ensures
            r == is_arm(*self),
    {
        match self {
            SocModel::Mt7988 | SocModel::Mt7986 | SocModel::Mt7981 => true,
            SocModel::Mt7621 | SocModel::Unknown => false,
        }
    }

    /// Indicates whether the SoC hardware supports IP/TCP/UDP Checksum Offload.
    pub fn has_checksum_offload(&self) -> (r: bool)
        ensures
            r == (*self != SocModel::Unknown),
    {
        match self {
            SocModel::Unknown => false,
            _ => true,
        }
    }

    /// Indicates whether the SoC supports TCP Segmentation Offload (TSO) in hardware.
    pub fn has_tso(&self) -> (r: bool)
        ensures
            r == (*self != SocModel::Unknown),
    {
        match self {
            SocModel::Unknown => false,
            _ => true,
        }
    }

    /// Indicates whether the network interface controller supports Multiple RX Queues.
    pub fn has_multi_rx_queues(&self) -> (r: bool)
        ensures
            r == is_arm(*self),
    {
        match self {
            SocModel::Mt7988 | SocModel::Mt7986 | SocModel::Mt7981 => true,
            SocModel::Mt7621 | SocModel::Unknown => false,
        }
    }

    /// Indicates whether the SoC is equipped with a dedicated Hardware Crypto Engine.
    pub fn has_crypto_engine(&self) -> (r: bool)
        ensures
            r == (*self != SocModel::Unknown),
    {
        match self {
            SocModel::Unknown => false,
            _ => true,
        }
    }

    /// Indicates whether the SoC hardware provides acceleration for the AES cipher.
    pub fn has_aes_acceleration(&self) -> (r: bool)
        ensures
            r == (*self != SocModel::Unknown),
    {
        match self {
            SocModel::Unknown => false,
            _ => true,
        }
    }

    /// Indicates whether the SoC hardware provides acceleration for SHA hashing.
    pub fn has_sha_acceleration(&self) -> (r: bool)
        ensures
            r == (*self != SocModel::Unknown),
    {
        match self {
            SocModel::Unknown => false,
            _ => true,
        }
    }

    /// Indicates whether the SoC contains an integrated True Random Number Generator.
    pub fn has_trng(&self) -> (r: bool)
        ensures
            r == (*self != SocModel::Unknown),
    {
        match self {
            SocModel::Unknown => false,
            _ => true,
        }
    }

    /// Indicates whether the SoC supports Secure Boot mechanisms (ARM-based Filogic).
    pub fn has_secure_boot(&self) -> (r: bool)
        ensures
            r == is_arm(*self),
    {
        match self {
            SocModel::Mt7988 | SocModel::Mt7986 | SocModel::Mt7981 => true,
            SocModel::Mt7621 | SocModel::Unknown => false,
        }
    }

    /// Indicates whether the SoC supports ARM TrustZone (Cortex-A processors).
    pub fn has_trustzone(&self) -> (r: bool)
        ensures
            r == is_arm(*self),
    {
        match self {
            SocModel::Mt7988 | SocModel::Mt7986 | SocModel::Mt7981 => true,
            SocModel::Mt7621 | SocModel::Unknown => false,
        }
    }
}

/// The chip identifier of each model of the table.
pub open spec fn chip_id(m: SocModel) -> Seq<char> {
    match m {
        SocModel::Mt7988 => "mt7988"@,
        SocModel::Mt7986 => "mt7986"@,
        SocModel::Mt7981 => "mt7981"@,
        SocModel::Mt7621 => "mt7621"@,
        SocModel::Unknown => seq![],
    }
}

/// The chip identifier of every model of the table is detected as that model.
pub proof fn law_chip_id_detected(m: SocModel)
    requires
        m != SocModel::Unknown,
    ensures
        soc_of_text(chip_id(m)) == m,
{
    match m {
        SocModel::Mt7988 => {
            reveal_strlit("mt7988");
            lemma_contains_same_len("mt7988"@, "mt7988"@);
        },
        SocModel::Mt7986 => {
            reveal_strlit("mt7986");
            reveal_strlit("mt7988");
            assert("mt7986"@[5] != "mt7988"@[5]);
            lemma_contains_same_len("mt7986"@, "mt7988"@);
            lemma_contains_same_len("mt7986"@, "mt7986"@);
        },
        SocModel::Mt7981 => {
            reveal_strlit("mt7981");
            reveal_strlit("mt7988");
            assert("mt7981"@[5] != "mt7988"@[5]);
            lemma_contains_same_len("mt7981"@, "mt7988"@);
            reveal_strlit("mt7986");
            assert("mt7981"@[5] != "mt7986"@[5]);
            lemma_contains_same_len("mt7981"@, "mt7986"@);
            lemma_contains_same_len("mt7981"@, "mt7981"@);
        },
        SocModel::Mt7621 => {
            reveal_strlit("mt7621");
            reveal_strlit("mt7988");
            assert("mt7621"@[3] != "mt7988"@[3]);
            lemma_contains_same_len("mt7621"@, "mt7988"@);
            reveal_strlit("mt7986");
            assert("mt7621"@[3] != "mt7986"@[3]);
            lemma_contains_same_len("mt7621"@, "mt7986"@);
            reveal_strlit("mt7981");
            assert("mt7621"@[3] != "mt7981"@[3]);
            lemma_contains_same_len("mt7621"@, "mt7981"@);
            lemma_contains_same_len("mt7621"@, "mt7621"@);
        },
        SocModel::Unknown => {},
    }
}

/// The ARM (Cortex-A) models of the table are MT7988, MT7986 and MT7981.
pub proof fn law_arm_models()
    ensures
        is_arm(SocModel::Mt7988),
        is_arm(SocModel::Mt7986),
        is_arm(SocModel::Mt7981),
        !is_arm(SocModel::Mt7621),
        !is_arm(SocModel::Unknown),
{
}

} // verus!
