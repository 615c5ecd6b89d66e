use conntracktor::platform::ethtool::{
    bit_active, check_feature, check_modern_feature, copy_if_name, find_feature_index,
    FeatureTable, NicFeature,
};

fn entries(names: &[&str]) -> Vec<u8> {
    let mut out = Vec::new();
    for n in names {
        let mut e = [0u8; 32];
        e[..n.len()].copy_from_slice(n.as_bytes());
        out.extend_from_slice(&e);
    }
    out
}

fn table() -> FeatureTable {
    FeatureTable {
        strings: entries(&["rx-checksum", "tx-checksum-ipv4", "rx-hashing", "tx-tcp-segmentation"]),
        active: vec![0b0101],
    }
}

#[test]
fn interface_name_is_copied_and_terminated() {
    let mut dest = [0xffu8; 16];
    copy_if_name("eth0", &mut dest);
    assert_eq!(&dest[..4], b"eth0");
    assert!(dest[4..].iter().all(|&b| b == 0));

    let mut long = [0xffu8; 16];
    copy_if_name("averyveryverylongname", &mut long);
    assert_eq!(&long[..15], b"averyveryverylo");
    assert_eq!(long[15], 0);

    let mut empty = [7u8; 16];
    copy_if_name("", &mut empty);
    assert_eq!(empty, [0u8; 16]);
}

#[test]
fn feature_index_lookup() {
    let t = table();
    assert_eq!(find_feature_index(&t.strings, "rx-checksum"), Some(0));
    assert_eq!(find_feature_index(&t.strings, "rx-hashing"), Some(2));
    assert_eq!(find_feature_index(&t.strings, "rx"), None);
    assert_eq!(find_feature_index(&t.strings, "rx-checksumx"), None);
    assert_eq!(find_feature_index(&Vec::new(), "rx-hashing"), None);
    let full = entries(&["abcdefghijklmnopqrstuvwxyz012345"]);
    assert_eq!(find_feature_index(&full, "abcdefghijklmnopqrstuvwxyz012345"), Some(0));
    let twice = entries(&["tso", "tso"]);
    assert_eq!(find_feature_index(&twice, "tso"), Some(0));
}

#[test]
fn feature_bits() {
    assert!(bit_active(&vec![0b1], 0));
    assert!(!bit_active(&vec![0b1], 1));
    assert!(bit_active(&vec![0x8000_0000], 31));
    assert!(bit_active(&vec![0, 0b10], 33));
    assert!(!bit_active(&vec![0xffff_ffff, 0], 32));
}

#[test]
fn named_features() {
    let t = table();
    assert!(check_modern_feature(&t, "rx-checksum"));
    assert!(!check_modern_feature(&t, "tx-checksum-ipv4"));
    assert!(check_modern_feature(&t, "rx-hashing"));
    assert!(!check_modern_feature(&t, "tx-tcp-segmentation"));
    assert!(!check_modern_feature(&t, "receive-hashing"));
}

#[test]
fn feature_aliases() {
    let t = Some(table());
    assert!(check_feature(&t, NicFeature::Rss));
    assert!(check_feature(&t, NicFeature::RxChecksum));
    assert!(!check_feature(&t, NicFeature::TxChecksum));
    assert!(!check_feature(&t, NicFeature::Tso));
    let alias = Some(FeatureTable {
        strings: entries(&["receive-hashing", "tx-checksum-ipv6"]),
        active: vec![0b11],
    });
    assert!(check_feature(&alias, NicFeature::Rss));
    assert!(check_feature(&alias, NicFeature::TxChecksum));
}

#[test]
fn no_table_no_feature() {
    assert!(!check_feature(&None, NicFeature::Rss));
    assert!(!check_feature(&None, NicFeature::Tso));
}
