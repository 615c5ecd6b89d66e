use conntracktor::platform::system::{bytes_to_mb, os_release_of, uptime_days_hours, HostInfo};

#[test]
fn os_release_between_brackets() {
    assert_eq!(os_release_of("Linux 5.15.150 (OpenWrt 23.05.3)"), "OpenWrt 23.05.3");
    assert_eq!(os_release_of("Plain"), "Plain");
    assert_eq!(os_release_of("a (b) (c)"), "b) (c");
    assert_eq!(os_release_of("a (b"), "a (b");
    assert_eq!(os_release_of("a b)"), "a b)");
    assert_eq!(os_release_of("()"), "");
}

#[test]
fn host_info_from_reports() {
    let h = HostInfo::from_system(Some("router".to_string()), None);
    assert_eq!(h.hostname, "router");
    assert_eq!(h.os_version, "Unknown OS");
    let h = HostInfo::from_system(None, Some("Linux (OpenWrt SNAPSHOT)".to_string()));
    assert_eq!(h.hostname, "Unknown");
    assert_eq!(h.os_version, "OpenWrt SNAPSHOT");
    let d = HostInfo::default();
    assert_eq!(d.hostname, "");
    assert_eq!(d.os_version, "");
}

#[test]
fn uptime_split_into_days_and_hours() {
    assert_eq!(uptime_days_hours(0), (0, 0));
    assert_eq!(uptime_days_hours(3599), (0, 0));
    assert_eq!(uptime_days_hours(90061), (1, 1));
    assert_eq!(uptime_days_hours(86399), (0, 23));
    let (d, h) = uptime_days_hours(1_000_000);
    assert_eq!((d, h), (11, 13));
    assert!(h < 24 && d * 86400 + h * 3600 <= 1_000_000 && 1_000_000 < d * 86400 + h * 3600 + 3600);
}

#[test]
fn bytes_in_mebibytes() {
    assert_eq!(bytes_to_mb(1_073_741_824), 1024);
    assert_eq!(bytes_to_mb(1_048_575), 0);
    assert_eq!(bytes_to_mb(u64::MAX), 17_592_186_044_415);
}
