use conntracktor::accelerator::AccelerationStatus;
use conntracktor::hardware::HardwareInfo;
use conntracktor::platform::hardware::HardwareProbe;
use conntracktor::soc::SocModel;

fn info(soc: SocModel) -> HardwareInfo {
    HardwareInfo {
        soc,
        cpu_cores: 4,
        cpu_arch: "Cortex-A53".to_string(),
        cpu_freq_mhz: None,
        memory_mb: None,
        memory_freq_mhz: None,
        switch: String::new(),
        flash: String::new(),
        misc: String::new(),
        ppe_count: 0,
        wed_count: 0,
        rss: false,
        checksum_offload: false,
        tso: false,
        multi_rx: false,
        crypto_engine: false,
        aes: false,
        sha: false,
        trng: false,
        secure_boot: false,
        trustzone: false,
    }
}

fn strings(v: &[&str]) -> Vec<String> {
    v.iter().map(|s| s.to_string()).collect()
}

#[test]
fn legacy_acceleration_from_nodes() {
    let s = AccelerationStatus::check_system(&strings(&[
        "/sys/module/nf_flow_table",
        "/sys/kernel/debug/mtk_ppe",
    ]));
    assert!(s.software && s.hw_ppe && !s.hw_wed);
    let s = AccelerationStatus::check_system(&strings(&["/sys/module/mt76/parameters/wed_enable"]));
    assert!(!s.software && !s.hw_ppe && s.hw_wed);
    let s = AccelerationStatus::check_system(&Vec::new());
    assert!(!s.software && !s.hw_ppe && !s.hw_wed);
    assert!(AccelerationStatus::check_ppe(&strings(&["/sys/module/mtk_ppe"])));
    assert!(AccelerationStatus::check_wed(&strings(&["/sys/kernel/debug/mt76/wed"])));
    assert!(!AccelerationStatus::check_software_offload(&strings(&["/sys/module/nf_flow"])));
    assert_eq!(AccelerationStatus::probe_paths().len(), 5);
    let d = AccelerationStatus::default();
    assert!(!d.software && !d.hw_ppe && !d.hw_wed);
}

#[test]
fn legacy_soc_table() {
    assert_eq!(SocModel::detect(Some("MediaTek,MT7621-SOC")), SocModel::Mt7621);
    assert_eq!(SocModel::detect(Some("mediatek,mt7987")), SocModel::Unknown);
    assert_eq!(SocModel::detect(None), SocModel::Unknown);
    assert_eq!(SocModel::Mt7986.display_name(), "MT7986 (Filogic 830)");
    assert_eq!(SocModel::Mt7621.architecture(), "2× MIPS1004Kc");
    assert_eq!(SocModel::Mt7981.core_frequency_hz(), 1_300_000_000);
    assert_eq!(SocModel::Unknown.core_frequency_hz(), 0);
    assert_eq!(SocModel::Mt7981.ppe_count(), 1);
    assert_eq!(SocModel::Mt7988.wed_count(), 3);
    assert!(SocModel::Mt7621.has_sha_acceleration());
    assert!(!SocModel::Mt7621.has_trustzone());
    assert!(SocModel::Mt7981.has_secure_boot());
}

#[test]
fn legacy_cpu_architecture() {
    assert_eq!(
        HardwareInfo::parse_cpu_architecture_from_cpuinfo("CPU part\t: 0xd08\n"),
        Some("Cortex-A73".to_string())
    );
    assert_eq!(
        HardwareInfo::parse_cpu_architecture_from_cpuinfo("cpu model : MIPS 1004Kc\n"),
        Some("MIPS".to_string())
    );
    assert_eq!(
        HardwareInfo::parse_cpu_architecture_from_cpuinfo("CPU part : 0xd03\n"),
        None
    );
    assert_eq!(
        HardwareInfo::parse_cpu_architecture_from_cpuinfo("model name : Generic\n"),
        Some("Generic".to_string())
    );
    assert_eq!(
        HardwareInfo::detect_cpu_arch(None, "", &SocModel::Mt7986),
        "4× Cortex-A53"
    );
}

#[test]
fn legacy_frequency_from_summary_column() {
    let none = vec![None, None, None, None];
    let summary = "h\nh\narmpll 1 1 0 1300000000 0\n";
    assert_eq!(HardwareInfo::detect_cpu_frequency_mhz(&none, Some(summary)), Some(1300));
    let shifted = "h\nh\narmpll 1 1 0 0 1300000000\n";
    assert_eq!(HardwareInfo::detect_cpu_frequency_mhz(&none, Some(shifted)), None);
}

#[test]
fn legacy_device_count_by_substring() {
    let devs = strings(&["15100000.wed", "mtk_wed", "wed_pcie"]);
    assert_eq!(HardwareInfo::count_platform_devices(&devs, &Vec::new(), "wed"), 3);
    let nodes = strings(&["ppe@1"]);
    assert_eq!(HardwareInfo::count_platform_devices(&devs, &nodes, "ppe"), 1);
}

#[test]
fn legacy_display_texts() {
    let mut hw = info(SocModel::Mt7986);
    assert_eq!(hw.display_soc(), "MT7986 (Filogic 830)");
    assert_eq!(hw.display_cpu(), "4× Cortex-A53");
    hw.cpu_freq_mhz = Some(2000);
    assert_eq!(hw.display_cpu(), "4× Cortex-A53 @ 2000 MHz");
    hw.cpu_freq_mhz = Some(1600);
    assert_eq!(hw.display_cpu(), "4× Cortex-A53 @ 1600 MHz ❗");
    hw.memory_mb = Some(1024);
    assert_eq!(hw.display_ram(), "1024 MB");
    assert_eq!(hw.display_ppe_count(), "0 ❗");
    hw.ppe_count = 2;
    assert_eq!(hw.display_ppe_count(), "2");
    assert_eq!(hw.display_wed_count(), "0 ❗");
    assert_eq!(hw.display_rss(), "✗ ❗");
    hw.rss = true;
    assert_eq!(hw.display_rss(), "✓");
    assert_eq!(hw.display_trustzone(), "✗ ❗");
    let unknown = info(SocModel::Unknown);
    assert_eq!(unknown.display_aes(), "✗");
    assert_eq!(unknown.display_secure_boot(), "✗");
}

#[test]
fn legacy_formatters() {
    let a: Vec<char> = "x".chars().collect();
    let b: Vec<char> = "y".chars().collect();
    assert_eq!(HardwareInfo::format_value(&a, &a), "x");
    assert_eq!(HardwareInfo::format_value(&a, &b), "x ❗");
    assert_eq!(HardwareInfo::format_count(3, 3), "3");
    assert_eq!(HardwareInfo::format_count(10, 1), "10 ❗");
    assert_eq!(HardwareInfo::format_bool(true, false), "✓ ❗");
    assert_eq!(HardwareInfo::format_bool(false, false), "✗");
}

#[test]
fn legacy_detection_from_readings() {
    let p = HardwareProbe {
        compatible: Some("mediatek,mt7981".to_string()),
        sysinfo_cpu_count: 2,
        sysinfo_cpu_brand: None,
        cpuinfo: "CPU part\t: 0xd03\n".to_string(),
        clk_rates: vec![None, None, None, None],
        clk_summary: None,
        meminfo: Some("MemTotal: 524288 kB\n".to_string()),
        platform_devices: strings(&["15100000.ppe", "15010000.wed"]),
        soc_nodes: Vec::new(),
        main_interface: Some("eth0".to_string()),
        rx_queue_present: false,
        crypto: None,
        rng_available: None,
        hwrng_present: true,
        securelevel_present: false,
        secure_boot_node_present: true,
        tee_device_present: false,
        tee_class_present: false,
    };
    let hw = HardwareInfo::detect(&p);
    assert_eq!(hw.soc, SocModel::Mt7981);
    assert_eq!(hw.cpu_arch, "Cortex-A53");
    assert_eq!(hw.memory_mb, Some(512));
    assert_eq!(hw.ppe_count, 1);
    assert_eq!(hw.wed_count, 1);
    assert!(hw.trng && hw.secure_boot && !hw.trustzone && !hw.multi_rx);
}

#[test]
fn legacy_chip_identifiers_are_detected() {
    assert_eq!(SocModel::detect(Some("mt7988")), SocModel::Mt7988);
    assert_eq!(SocModel::detect(Some("mt7986")), SocModel::Mt7986);
    assert_eq!(SocModel::detect(Some("mt7981")), SocModel::Mt7981);
    assert_eq!(SocModel::detect(Some("mt7621")), SocModel::Mt7621);
}

#[test]
fn legacy_soc_from_lowered_text() {
    let t: Vec<char> = "mediatek,mt7981b".chars().collect();
    assert_eq!(SocModel::from_text(&t), SocModel::Mt7981);
    let upper: Vec<char> = "MT7981".chars().collect();
    assert_eq!(SocModel::from_text(&upper), SocModel::Unknown);
}
