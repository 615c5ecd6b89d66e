use conntracktor::platform::accelerator::{AccelerationProbe, AccelerationStatus};

const FLOWTABLE_HW: &str = "table inet fw4 {\n\tflowtable ft {\n\t\thook ingress priority filter\n\t\tdevices = { lan1, lan2, wan }\n\t\tflags offload\n\t\tcounter\n\t}\n}\n";
const FLOWTABLE_SW: &str = "table inet fw4 {\n\tflowtable ft {\n\t\thook ingress priority filter\n\t\tdevices = { lan1, wan }\n\t}\n}\n";

fn strings(v: &[&str]) -> Vec<String> {
    v.iter().map(|s| s.to_string()).collect()
}

fn probe(flowtable: Option<&str>, ppe: &[&str], params: &[&str], nodes: &[(&str, &str)]) -> AccelerationProbe {
    AccelerationProbe {
        flowtable: flowtable.map(|s| s.to_string()),
        ppe_nodes: strings(ppe),
        wed_params: strings(params),
        wed_nodes: nodes.iter().map(|(p, c)| (p.to_string(), c.to_string())).collect(),
    }
}

#[test]
fn default_status_is_all_off() {
    let s = AccelerationStatus::default();
    assert!(!s.software && !s.hw_ppe && !s.hw_wed);
}

#[test]
fn flowtable_listing() {
    assert_eq!(
        AccelerationStatus::check_nftables_flowtable(&Some(FLOWTABLE_HW.to_string())),
        (true, true)
    );
    assert_eq!(
        AccelerationStatus::check_nftables_flowtable(&Some(FLOWTABLE_SW.to_string())),
        (true, false)
    );
    assert_eq!(AccelerationStatus::check_nftables_flowtable(&None), (false, false));
}

#[test]
fn ppe_driver_nodes() {
    assert!(AccelerationStatus::is_ppe_driver_loaded(&strings(&["/sys/kernel/debug/ppe0"])));
    assert!(AccelerationStatus::is_ppe_driver_loaded(&strings(&[
        "/sys/kernel/debug/eth_sys/ppe2"
    ])));
    assert!(AccelerationStatus::is_ppe_driver_loaded(&strings(&["/sys/kernel/debug/mtk_ppe"])));
    assert!(!AccelerationStatus::is_ppe_driver_loaded(&strings(&["/sys/kernel/debug/ppe3"])));
    assert!(!AccelerationStatus::is_ppe_driver_loaded(&Vec::new()));
    assert_eq!(AccelerationStatus::ppe_debugfs_paths().len(), 7);
    assert_eq!(AccelerationStatus::ppe_debugfs_paths()[1], "/sys/kernel/debug/eth_sys/ppe0");
}

#[test]
fn wed_module_parameters() {
    assert!(AccelerationStatus::is_wed_allowed_by_module(&Vec::new()));
    assert!(AccelerationStatus::is_wed_allowed_by_module(&strings(&["Y\n", "1"])));
    assert!(!AccelerationStatus::is_wed_allowed_by_module(&strings(&["Y\n", "N\n"])));
    assert!(!AccelerationStatus::is_wed_allowed_by_module(&strings(&["n"])));
    assert!(!AccelerationStatus::is_wed_allowed_by_module(&strings(&[" 0 \n"])));
    assert!(AccelerationStatus::is_wed_allowed_by_module(&strings(&["no"])));
    assert_eq!(AccelerationStatus::wed_param_paths().len(), 7);
    assert_eq!(
        AccelerationStatus::wed_param_paths()[0],
        "/sys/module/mt7915e/parameters/wed_enable"
    );
}

#[test]
fn wed_indicator_nodes() {
    let status = "/sys/kernel/debug/wed0/status";
    let legacy = "/sys/kernel/debug/mtk_wed1/status";
    let tx = "/sys/kernel/debug/wed0/txinfo";
    assert!(AccelerationStatus::wed_indicator_active(status, "status: 1\n"));
    assert!(!AccelerationStatus::wed_indicator_active(status, "status: 0\n"));
    assert!(AccelerationStatus::wed_indicator_active(legacy, "state: ACTIVE"));
    assert!(!AccelerationStatus::wed_indicator_active(legacy, "state: active"));
    assert!(AccelerationStatus::wed_indicator_active(tx, "0x15010000 0x1\n"));
    assert!(!AccelerationStatus::wed_indicator_active(tx, "0x1"));
    assert!(!AccelerationStatus::wed_indicator_active(tx, "   \n"));
    assert!(!AccelerationStatus::wed_indicator_active(status, ""));
    // Ten bytes are not enough; the length counts bytes, not characters.
    assert!(!AccelerationStatus::wed_indicator_active(tx, "0123456789"));
    assert!(AccelerationStatus::wed_indicator_active(tx, "01234567890"));
    assert!(!AccelerationStatus::wed_indicator_active(tx, "ééééé"));
    assert!(AccelerationStatus::wed_indicator_active(tx, "éééééé"));
    assert_eq!(AccelerationStatus::wed_indicator_paths().len(), 16);
    assert_eq!(AccelerationStatus::wed_indicator_paths()[3], "/sys/kernel/debug/mtk_wed0/status");
}

#[test]
fn wed_needs_permission_and_an_active_node() {
    let nodes = vec![
        ("/sys/kernel/debug/wed0/txinfo".to_string(), "".to_string()),
        ("/sys/kernel/debug/wed1/status".to_string(), "status: 1".to_string()),
    ];
    assert!(AccelerationStatus::check_wed(&Vec::new(), &nodes));
    assert!(!AccelerationStatus::check_wed(&strings(&["N"]), &nodes));
    assert!(!AccelerationStatus::check_wed(&Vec::new(), &Vec::new()));
}

#[test]
fn full_detection() {
    let p = probe(
        Some(FLOWTABLE_HW),
        &["/sys/kernel/debug/ppe1"],
        &["Y"],
        &[("/sys/kernel/debug/wed0/rxinfo", "0x15010000 0x15011000")],
    );
    let s = AccelerationStatus::check_system(&p);
    assert!(s.software && s.hw_ppe && s.hw_wed);
}

#[test]
fn ppe_needs_the_offload_flag_and_the_driver() {
    let no_flag = probe(Some(FLOWTABLE_SW), &["/sys/kernel/debug/ppe0"], &[], &[]);
    let s = AccelerationStatus::check_system(&no_flag);
    assert!(s.software && !s.hw_ppe && !s.hw_wed);
    let no_driver = probe(Some(FLOWTABLE_HW), &[], &[], &[]);
    assert!(!AccelerationStatus::check_system(&no_driver).hw_ppe);
}

#[test]
fn ppe_never_without_software_offload() {
    let p = probe(None, &["/sys/kernel/debug/ppe0"], &[], &[]);
    let s = AccelerationStatus::check_system(&p);
    assert!(!s.software);
    assert!(!s.hw_ppe);
}

#[test]
fn disabled_module_disables_wed() {
    let p = probe(
        Some(FLOWTABLE_HW),
        &[],
        &["Y", "n"],
        &[("/sys/kernel/debug/wed0/status", "status: 1")],
    );
    assert!(!AccelerationStatus::check_system(&p).hw_wed);
}
