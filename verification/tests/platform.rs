use conntracktor::platform::hardware::{device_lowered_matches, HardwareInfo, HardwareProbe};
use conntracktor::platform::soc::SocModel;

const ALL_MODELS: [SocModel; 10] = [
    SocModel::Mt7988,
    SocModel::Mt7987,
    SocModel::Mt7986,
    SocModel::Mt7981,
    SocModel::Mt7622,
    SocModel::Mt7629,
    SocModel::Mt7621,
    SocModel::Mt7628,
    SocModel::Mt7620,
    SocModel::Unknown,
];

fn info(soc: SocModel) -> HardwareInfo {
    let mut hw = HardwareInfo::default();
    hw.soc = soc;
    hw
}

fn empty_probe() -> HardwareProbe {
    HardwareProbe {
        compatible: None,
        sysinfo_cpu_count: 0,
        sysinfo_cpu_brand: None,
        cpuinfo: String::new(),
        clk_rates: vec![None, None, None, None],
        clk_summary: None,
        meminfo: None,
        platform_devices: Vec::new(),
        soc_nodes: Vec::new(),
        main_interface: None,
        rx_queue_present: false,
        crypto: None,
        rng_available: None,
        hwrng_present: false,
        securelevel_present: false,
        secure_boot_node_present: false,
        tee_device_present: false,
        tee_class_present: false,
    }
}

#[test]
fn soc_detection_from_compatible() {
    assert_eq!(
        SocModel::detect(Some("bananapi,bpi-r3\0mediatek,mt7986a\0")),
        SocModel::Mt7986
    );
    assert_eq!(SocModel::detect(Some("MediaTek,MT7981")), SocModel::Mt7981);
    assert_eq!(SocModel::detect(Some("mediatek,mt7621-soc")), SocModel::Mt7621);
    assert_eq!(SocModel::detect(Some("mt7981 mt7988")), SocModel::Mt7988);
    assert_eq!(SocModel::detect(Some("brcm,bcm2711")), SocModel::Unknown);
    assert_eq!(SocModel::detect(Some("")), SocModel::Unknown);
    assert_eq!(SocModel::detect(None), SocModel::Unknown);
    assert_eq!(SocModel::default(), SocModel::Unknown);
}

#[test]
fn every_chip_identifier_is_detected() {
    let ids = [
        "mt7988", "mt7987", "mt7986", "mt7981", "mt7622", "mt7629", "mt7621", "mt7628", "mt7620",
    ];
    for (i, id) in ids.iter().enumerate() {
        assert_eq!(SocModel::detect(Some(id)), ALL_MODELS[i]);
    }
}

#[test]
fn soc_names_and_architectures() {
    assert_eq!(SocModel::Mt7988.display_name(), "MT7988 (Filogic 880)");
    assert_eq!(SocModel::Mt7629.display_name(), "MT7629");
    assert_eq!(SocModel::Mt7620.display_name(), "MT7620 (MIPS)");
    assert_eq!(SocModel::Unknown.display_name(), "Unknown SoC");
    assert_eq!(SocModel::Mt7988.architecture(), "4× Cortex-A73");
    assert_eq!(SocModel::Mt7981.architecture(), "2× Cortex-A53");
    assert_eq!(SocModel::Mt7621.architecture(), "2× MIPS1004Kc");
    assert_eq!(SocModel::Mt7628.architecture(), "1× MIPS24KEc");
    assert_eq!(SocModel::Unknown.architecture(), "Unknown");
}

#[test]
fn soc_frequencies_and_engine_counts() {
    assert_eq!(SocModel::Mt7988.core_frequency_hz(), 1_800_000_000);
    assert_eq!(SocModel::Mt7986.core_frequency_hz(), 2_000_000_000);
    assert_eq!(SocModel::Mt7621.core_frequency_hz(), 880_000_000);
    assert_eq!(SocModel::Mt7620.core_frequency_hz(), 600_000_000);
    for m in ALL_MODELS.iter() {
        assert_eq!(m.core_frequency_hz() == 0, *m == SocModel::Unknown);
    }
    assert_eq!(SocModel::Mt7988.ppe_count(), 3);
    assert_eq!(SocModel::Mt7981.ppe_count(), 2);
    assert_eq!(SocModel::Mt7628.ppe_count(), 1);
    assert_eq!(SocModel::Unknown.ppe_count(), 0);
    assert_eq!(SocModel::Mt7622.wed_count(), 2);
    assert_eq!(SocModel::Mt7981.wed_count(), 1);
    assert_eq!(SocModel::Mt7621.wed_count(), 0);
}

#[test]
fn soc_capabilities() {
    assert!(SocModel::Mt7986.has_rss());
    assert!(!SocModel::Mt7621.has_rss());
    assert!(SocModel::Mt7620.has_checksum_offload());
    assert!(!SocModel::Unknown.has_checksum_offload());
    assert!(SocModel::Mt7628.has_tso());
    assert!(SocModel::Mt7622.has_multi_rx_queues());
    assert!(!SocModel::Mt7629.has_multi_rx_queues());
    assert!(SocModel::Mt7621.has_crypto_engine());
    assert!(SocModel::Mt7628.has_aes_acceleration());
    assert!(!SocModel::Mt7628.has_sha_acceleration());
    assert!(SocModel::Mt7621.has_trng());
    assert!(!SocModel::Mt7620.has_trng());
    assert!(SocModel::Mt7629.has_secure_boot());
    assert!(!SocModel::Mt7621.has_secure_boot());
    assert!(SocModel::Mt7981.has_trustzone());
    assert!(!SocModel::Unknown.has_trustzone());
}

#[test]
fn cpu_arch_from_cpuinfo() {
    let arm = "processor\t: 0\nCPU implementer\t: 0x41\nCPU architecture: 8\nCPU part\t: 0xd03\n";
    assert_eq!(SocModel::parse_cpu_arch_from_cpuinfo(arm), Some("Cortex-A53"));
    let a73 = "CPU implementer : 0X41\nCPU part : D09\n";
    assert_eq!(SocModel::parse_cpu_arch_from_cpuinfo(a73), Some("Cortex-A73"));
    let odd_part = "CPU implementer\t: 0x41\nCPU part\t: 0xd99\ncpu model\t: MIPS 24KEc\n";
    assert_eq!(SocModel::parse_cpu_arch_from_cpuinfo(odd_part), None);
    let mips = "system type\t\t: MediaTek MT7621 ver:1 eco:3\ncpu model\t\t: MIPS 1004Kc V2.15\n";
    assert_eq!(SocModel::parse_cpu_arch_from_cpuinfo(mips), Some("MIPS 1004Kc"));
    let later_overrides = "cpu model : MIPS 24KEc\nsystem type : mips board\n";
    assert_eq!(SocModel::parse_cpu_arch_from_cpuinfo(later_overrides), Some("MIPS"));
    let kept = "cpu model : MIPS 24KEc\nsystem type : something\n";
    assert_eq!(SocModel::parse_cpu_arch_from_cpuinfo(kept), Some("MIPS 24KEc"));
    assert_eq!(SocModel::parse_cpu_arch_from_cpuinfo("CPU implementer : 0x51\n"), None);
    assert_eq!(SocModel::parse_cpu_arch_from_cpuinfo(""), None);
}

#[test]
fn cpu_core_count() {
    assert_eq!(HardwareInfo::detect_cpu_cores(4, ""), 4);
    assert_eq!(
        HardwareInfo::detect_cpu_cores(0, "processor\t: 0\nBogoMIPS\t: 26\nprocessor\t: 1\n"),
        2
    );
    assert_eq!(HardwareInfo::detect_cpu_cores(0, ""), 1);
}

#[test]
fn generic_cpu_model() {
    assert_eq!(
        HardwareInfo::parse_generic_cpu_model("model name\t: ARMv8 Processor rev 4 (v8l)\n"),
        Some("ARMv8 Processor rev 4 (v8l)".to_string())
    );
    assert_eq!(
        HardwareInfo::parse_generic_cpu_model("Hardware\t: Unknown board\nmodel name : Real\n"),
        None
    );
    assert_eq!(HardwareInfo::parse_generic_cpu_model("model name :   \n"), None);
    assert_eq!(HardwareInfo::parse_generic_cpu_model("model name\n"), None);
    assert_eq!(HardwareInfo::parse_generic_cpu_model("nothing here"), None);
}

#[test]
fn cpu_arch_fallbacks() {
    let arm = "CPU implementer\t: 0x41\nCPU part\t: 0xd03\n";
    assert_eq!(
        HardwareInfo::detect_cpu_arch(Some("  Cortex-A53  "), "", &SocModel::Unknown),
        "Cortex-A53"
    );
    assert_eq!(
        HardwareInfo::detect_cpu_arch(Some("UNKNOWN CPU"), arm, &SocModel::Unknown),
        "Cortex-A53"
    );
    assert_eq!(
        HardwareInfo::detect_cpu_arch(None, "model name : Generic\n", &SocModel::Mt7988),
        "Generic"
    );
    assert_eq!(HardwareInfo::detect_cpu_arch(Some(""), "", &SocModel::Mt7988), "4× Cortex-A73");
}

#[test]
fn cpu_frequency_from_clock_rates() {
    let rates = vec![None, Some("1300000000\n".to_string()), None, None];
    assert_eq!(HardwareInfo::detect_cpu_frequency_mhz(&rates, None), Some(1300));
    let low = vec![Some("50000000".to_string()), None, Some("garbage".to_string()), None];
    assert_eq!(HardwareInfo::detect_cpu_frequency_mhz(&low, None), None);
    let first_wins = vec![Some("2000000000".to_string()), Some("1000000000".to_string())];
    assert_eq!(HardwareInfo::detect_cpu_frequency_mhz(&first_wins, None), Some(2000));
}

#[test]
fn cpu_frequency_from_clock_summary() {
    let summary = "                                 enable  prepare  protect\n   clock                          count    count    count        rate   accuracy phase\n---------------------------------------------------------------------\n cpu_clk                              1        1        0  1800000000          0     0\n";
    let none = vec![None, None, None, None];
    assert_eq!(HardwareInfo::detect_cpu_frequency_mhz(&none, Some(summary)), Some(1800));
    let header_only = "armpll 1 1 0 2000000000\nmcu_armpll 1 1 0 2000000000\n";
    assert_eq!(HardwareInfo::detect_cpu_frequency_mhz(&none, Some(header_only)), None);
    let other = "h\nh\nuart 1 1 0 40000000\n";
    assert_eq!(HardwareInfo::detect_cpu_frequency_mhz(&none, Some(other)), None);
}

#[test]
fn memory_size() {
    let meminfo = "MemTotal:        1015812 kB\nMemFree:          800000 kB\n";
    assert_eq!(HardwareInfo::detect_memory_mb(Some(meminfo)), Some(992));
    assert_eq!(HardwareInfo::detect_memory_mb(Some("MemFree: 1 kB\n")), None);
    assert_eq!(HardwareInfo::detect_memory_mb(Some("MemTotal: lots kB\n")), None);
    assert_eq!(HardwareInfo::detect_memory_mb(None), None);
    assert_eq!(HardwareInfo::detect_memory_freq_mhz(), None);
}

#[test]
fn placeholder_texts() {
    assert_eq!(HardwareInfo::detect_flash(), "[Placeholder]");
    assert_eq!(HardwareInfo::detect_switch(), "[Placeholder]");
    assert_eq!(HardwareInfo::detect_misc(), "[Placeholder]");
}

#[test]
fn platform_device_counts() {
    let devices = vec![
        "15100000.ppe".to_string(),
        "15100400.PPE1".to_string(),
        "mtk_wed0".to_string(),
        "wed_pcie".to_string(),
        "soc.ppe".to_string(),
        "10320000.crypto".to_string(),
    ];
    let none: Vec<String> = Vec::new();
    assert_eq!(HardwareInfo::count_platform_devices(&devices, &none, "ppe"), 2);
    assert_eq!(HardwareInfo::count_platform_devices(&devices, &none, "wed"), 1);
    assert_eq!(HardwareInfo::count_platform_devices(&devices, &none, "crypto"), 1);
    assert_eq!(HardwareInfo::count_platform_devices(&devices, &none, "eip"), 0);
    let nodes = vec!["wed@15010000".to_string(), "wed@15011000".to_string()];
    assert_eq!(HardwareInfo::count_platform_devices(&none, &nodes, "wed"), 2);
    assert_eq!(HardwareInfo::count_platform_devices(&devices, &nodes, "wed"), 1);
}

#[test]
fn main_interface_choice() {
    let names = vec!["lo".to_string(), "br-lan".to_string(), "lan1".to_string(), "eth0".to_string()];
    assert_eq!(
        HardwareInfo::get_main_interface(&names, &vec![false; 4]),
        Some("lan1".to_string())
    );
    let wifi = vec!["wlan0".to_string()];
    assert_eq!(
        HardwareInfo::get_main_interface(&wifi, &vec![false, true, true, false]),
        Some("eth1".to_string())
    );
    assert_eq!(HardwareInfo::get_main_interface(&wifi, &vec![false; 4]), None);
    assert_eq!(HardwareInfo::target_clocks(), vec!["armpll", "mcu_armpll", "cpu_clk", "cpu"]);
    assert_eq!(HardwareInfo::fallback_interfaces(), vec!["eth0", "eth1", "lan0", "lan1"]);
}

#[test]
fn multi_rx_and_nic_features() {
    assert!(HardwareInfo::check_multi_rx(&Some("eth0".to_string()), true));
    assert!(!HardwareInfo::check_multi_rx(&Some("eth0".to_string()), false));
    assert!(!HardwareInfo::check_multi_rx(&None, true));
    assert!(!HardwareInfo::check_nic_feature(&Some("eth0".to_string()), "rx-hashing"));
}

#[test]
fn crypto_drivers() {
    let crypto = "name         : cbc(aes)\ndriver       : safexcel-cbc-aes\nmodule       : kernel\n\nname         : sha256\ndriver       : sha256-generic\nmodule       : kernel\n\nname         : sha1\ndriver       : sha1-eip97\n";
    assert!(HardwareInfo::check_crypto_algo(Some(crypto), "aes"));
    assert!(HardwareInfo::check_crypto_algo(Some(crypto), "sha"));
    assert!(!HardwareInfo::check_crypto_algo(Some(crypto), "des"));
    let soft = "name : sha256\ndriver : sha256-generic\n\ndriver : mtk-sha256\n";
    assert!(!HardwareInfo::check_crypto_algo(Some(soft), "sha"));
    assert!(!HardwareInfo::check_crypto_algo(None, "aes"));
}

#[test]
fn trng_and_secure_boot() {
    assert!(HardwareInfo::check_trng(Some("mtk-rng\n"), false));
    assert!(HardwareInfo::check_trng(Some("safexcel-rng"), false));
    assert!(!HardwareInfo::check_trng(Some("timeriomem_rng"), true));
    assert!(HardwareInfo::check_trng(None, true));
    assert!(!HardwareInfo::check_trng(None, false));
    assert!(HardwareInfo::check_secure_boot(true, false));
    assert!(HardwareInfo::check_secure_boot(false, true));
    assert!(!HardwareInfo::check_secure_boot(false, false));
}

#[test]
fn display_texts() {
    let mut hw = info(SocModel::Mt7986);
    assert_eq!(hw.display_soc(), "MT7986 (Filogic 830)");
    assert_eq!(hw.display_ram(), "");
    hw.memory_mb = Some(512);
    assert_eq!(hw.display_ram(), "512 MB");
    hw.memory_freq_mhz = Some(1600);
    assert_eq!(hw.display_ram(), "512 MB @ 1600 MHz");
    hw.cpu_cores = 4;
    hw.cpu_arch = "Cortex-A53".to_string();
    assert_eq!(hw.cpu_text(), "4× Cortex-A53");
    hw.cpu_arch = "2× MIPS1004Kc".to_string();
    assert_eq!(hw.cpu_text(), "2× MIPS1004Kc");
}

#[test]
fn cpu_frequency_modification() {
    let mut hw = info(SocModel::Mt7986);
    assert!(!hw.cpu_freq_modified());
    hw.cpu_freq_mhz = Some(1600);
    assert!(hw.cpu_freq_modified());
    hw.cpu_freq_mhz = Some(2000);
    assert!(!hw.cpu_freq_modified());
    let mut unknown = info(SocModel::Unknown);
    unknown.cpu_freq_mhz = Some(1234);
    assert!(!unknown.cpu_freq_modified());
}

#[test]
fn hardware_detection_from_readings() {
    let mut p = empty_probe();
    p.compatible = Some("xiaomi,ax3000t\0mediatek,mt7981\0".to_string());
    p.sysinfo_cpu_count = 2;
    p.cpuinfo = "CPU implementer\t: 0x41\nCPU part\t: 0xd03\n".to_string();
    p.clk_rates = vec![Some("1300000000".to_string()), None, None, None];
    p.meminfo = Some("MemTotal: 246076 kB\n".to_string());
    p.platform_devices = vec![
        "15100000.ppe".to_string(),
        "15010000.wed".to_string(),
        "10320000.crypto".to_string(),
    ];
    p.main_interface = Some("eth0".to_string());
    p.rx_queue_present = true;
    p.crypto = Some("name : cbc(aes)\ndriver : safexcel-cbc-aes\n".to_string());
    p.rng_available = Some("mtk-rng".to_string());
    p.tee_class_present = true;
    let hw = HardwareInfo::detect(&p);
    assert_eq!(hw.soc, SocModel::Mt7981);
    assert_eq!(hw.cpu_cores, 2);
    assert_eq!(hw.cpu_arch, "Cortex-A53");
    assert_eq!(hw.cpu_freq_mhz, Some(1300));
    assert_eq!(hw.memory_mb, Some(240));
    assert_eq!(hw.memory_freq_mhz, None);
    assert_eq!(hw.switch, "[Placeholder]");
    assert_eq!(hw.ppe_count, 2);
    assert_eq!(hw.wed_count, 1);
    assert!(!hw.rss && !hw.checksum_offload && !hw.tso);
    assert!(hw.multi_rx);
    assert!(hw.crypto_engine);
    assert!(hw.aes);
    assert!(!hw.sha);
    assert!(hw.trng);
    assert!(!hw.secure_boot);
    assert!(hw.trustzone);
}

#[test]
fn hardware_detection_without_readings() {
    let hw = HardwareInfo::detect(&empty_probe());
    assert_eq!(hw.soc, SocModel::Unknown);
    assert_eq!(hw.cpu_cores, 1);
    assert_eq!(hw.cpu_arch, "Unknown");
    assert_eq!(hw.cpu_freq_mhz, None);
    assert_eq!(hw.memory_mb, None);
    assert_eq!(hw.ppe_count, 0);
    assert!(!hw.multi_rx && !hw.crypto_engine && !hw.trng && !hw.trustzone);
}

fn chars(s: &str) -> Vec<char> {
    s.chars().collect()
}

#[test]
fn soc_from_lowered_text() {
    assert_eq!(SocModel::from_text(&chars("mediatek,mt7622")), SocModel::Mt7622);
    assert_eq!(SocModel::from_text(&chars("mt7620 mt7629")), SocModel::Mt7629);
    assert_eq!(SocModel::from_text(&chars("MT7988")), SocModel::Unknown);
    assert_eq!(SocModel::from_text(&chars("")), SocModel::Unknown);
}

#[test]
fn lowered_device_names() {
    assert!(device_lowered_matches(&chars("15100000.ppe"), "ppe"));
    assert!(device_lowered_matches(&chars("mtk_mtk_wed12"), "wed"));
    assert!(device_lowered_matches(&chars("wed@15010000"), "wed"));
    assert!(!device_lowered_matches(&chars("15100000.PPE"), "ppe"));
    assert!(!device_lowered_matches(&chars("wed_pcie"), "wed"));
    assert!(!device_lowered_matches(&chars("soc.ppe"), "ppe"));
}

#[test]
fn crypto_entry_with_hardware_driver() {
    let eip = "name : cbc(aes)\ndriver : cbc-aes-eip93\n";
    assert!(HardwareInfo::check_crypto_algo(Some(eip), "aes"));
    let closed = "name : cbc(aes)\n\ndriver : cbc-aes-eip93\n";
    assert!(!HardwareInfo::check_crypto_algo(Some(closed), "aes"));
    let decided = "name : cbc(aes)\ndriver : aes-generic\ndriver : cbc-aes-eip93\n";
    assert!(!HardwareInfo::check_crypto_algo(Some(decided), "aes"));
    let between = "name : cbc(aes)\nmodule : kernel\nname : other\ndriver : safexcel-cbc\n";
    assert!(HardwareInfo::check_crypto_algo(Some(between), "aes"));
    let later_field = "name : cbc(aes)\ndriver : generic : mtk\n";
    assert!(!HardwareInfo::check_crypto_algo(Some(later_field), "aes"));
}

#[test]
fn cpu_arch_answers_only_known_names() {
    assert_eq!(SocModel::parse_cpu_arch_from_cpuinfo("CPU implementer 0x41\nCPU part 0xd03\n"), None);
    assert_eq!(SocModel::parse_cpu_arch_from_cpuinfo("CPU part : 0xd03\n"), None);
    let switched = "CPU implementer : 0x41\nCPU part : 0xd03\nCPU implementer : 0x51\n";
    assert_eq!(SocModel::parse_cpu_arch_from_cpuinfo(switched), None);
    let back = "CPU implementer : 0x51\nCPU part : 0xd03\nCPU implementer : 0x41\n";
    assert_eq!(SocModel::parse_cpu_arch_from_cpuinfo(back), Some("Cortex-A53"));
}
