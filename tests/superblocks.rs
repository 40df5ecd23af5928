use blsforme::superblock::{for_reader, Error, Kind, Superblock};

fn uuid_bytes(s: &str) -> Vec<u8> {
    let hex: Vec<u8> = s.bytes().filter(|b| *b != b'-').collect();
    hex.chunks(2)
        .map(|c| u8::from_str_radix(std::str::from_utf8(c).unwrap(), 16).unwrap())
        .collect()
}

fn put(buf: &mut [u8], at: usize, bytes: &[u8]) {
    buf[at..at + bytes.len()].copy_from_slice(bytes);
}

fn ext4_image(uuid: &str, label: &[u8]) -> Vec<u8> {
    let mut b = vec![0u8; 4096];
    put(&mut b, 1080, &[0x53, 0xEF]);
    put(&mut b, 1128, &uuid_bytes(uuid));
    put(&mut b, 1144, label);
    b
}

fn btrfs_image(uuid: &str) -> Vec<u8> {
    let mut b = vec![0u8; 0x10000 + 4096];
    put(&mut b, 0x10040, b"_BHRfS_M");
    put(&mut b, 0x10020, &uuid_bytes(uuid));
    b
}

fn f2fs_image(uuid: &str, label: &str) -> Vec<u8> {
    let mut b = vec![0u8; 8192];
    put(&mut b, 1024, &0xF2F52010u32.to_le_bytes());
    put(&mut b, 1132, &uuid_bytes(uuid));
    let units: Vec<u8> = label.encode_utf16().flat_map(|u| u.to_le_bytes()).collect();
    put(&mut b, 1148, &units);
    b
}

fn xfs_image(uuid: &str, label: &str) -> Vec<u8> {
    let mut b = vec![0u8; 4096];
    put(&mut b, 0, b"XFSB");
    put(&mut b, 32, &uuid_bytes(uuid));
    put(&mut b, 108, label.as_bytes());
    b
}

fn luks2_image(uuid: &str) -> Vec<u8> {
    let mut b = vec![0u8; 8192];
    put(&mut b, 0, &[b'L', b'U', b'K', b'S', 0xba, 0xbe]);
    put(&mut b, 168, uuid.as_bytes());
    b
}

#[test]
fn ext4_test_basic() {
    let img = ext4_image("731af94c-9990-4eed-944d-5d230dbe8a0d", b"blsforme testing");
    let sb = for_reader(&img).expect("Cannot parse superblock");
    let label = sb.label().expect("Cannot determine volume name");
    assert_eq!(label, "blsforme testing");
    assert_eq!(sb.uuid().unwrap(), "731af94c-9990-4eed-944d-5d230dbe8a0d");
}

#[test]
fn btrfs_test_basic() {
    let img = btrfs_image("829d6a03-96a5-4749-9ea2-dbb6e59368b2");
    let sb = for_reader(&img).expect("Cannot parse superblock");
    assert_eq!(sb.uuid().unwrap(), "829d6a03-96a5-4749-9ea2-dbb6e59368b2");
    assert!(matches!(sb.label(), Err(Error::UnsupportedFeature)));
}

#[test]
fn f2fs_test_basic() {
    let img = f2fs_image("d2c85810-4e75-4274-bc7d-a78267af7443", "blsforme testing");
    let sb = for_reader(&img).expect("Cannot parse superblock");
    let label = sb.label().expect("Cannot determine volume name");
    assert_eq!(label, "blsforme testing");
    assert_eq!(sb.uuid().unwrap(), "d2c85810-4e75-4274-bc7d-a78267af7443");
}

#[test]
fn xfs_test_basic() {
    let img = xfs_image("45e8a3bf-8114-400f-95b0-380d0fb7d42d", "BLSFORME");
    let sb = for_reader(&img).expect("Cannot parse superblock");
    let label = sb.label().expect("Cannot determine volume name");
    assert_eq!(label, "BLSFORME");
    assert_eq!(sb.uuid().unwrap(), "45e8a3bf-8114-400f-95b0-380d0fb7d42d");
}

#[test]
fn luks2_test_basic() {
    let img = luks2_image("be373cae-2bd1-4ad5-953f-3463b2e53e59");
    let sb = for_reader(&img).expect("Cannot parse superblock");
    assert_eq!(sb.uuid().unwrap(), "be373cae-2bd1-4ad5-953f-3463b2e53e59");
    assert_eq!(sb.label().unwrap(), "");
}

#[test]
fn luks2_reversed_magic() {
    let mut img = luks2_image("be373cae-2bd1-4ad5-953f-3463b2e53e59");
    put(&mut img, 0, b"SKUL");
    let sb = for_reader(&img).expect("Cannot parse superblock");
    assert_eq!(sb.kind(), Kind::LUKS2);
}

#[test]
fn lib_test_determination() {
    let tests = vec![
        (btrfs_image("829d6a03-96a5-4749-9ea2-dbb6e59368b2"), Kind::Btrfs),
        (ext4_image("731af94c-9990-4eed-944d-5d230dbe8a0d", b"blsforme testing"), Kind::Ext4),
        (f2fs_image("d2c85810-4e75-4274-bc7d-a78267af7443", "blsforme testing"), Kind::F2FS),
        (luks2_image("be373cae-2bd1-4ad5-953f-3463b2e53e59"), Kind::LUKS2),
        (xfs_image("45e8a3bf-8114-400f-95b0-380d0fb7d42d", "BLSFORME"), Kind::XFS),
    ];
    for (img, kind) in tests {
        let block = for_reader(&img).expect("Failed to find right block implementation");
        assert_eq!(block.kind(), kind);
    }
}

#[test]
fn mod_test_determination() {
    let img = ext4_image("731af94c-9990-4eed-944d-5d230dbe8a0d", b"blsforme testing");
    let block = for_reader(&img).expect("Failed to find right block implementation");
    assert!(matches!(block, Superblock::Ext4(_)));
}

#[test]
fn unknown_superblock() {
    let img = vec![0u8; 128 * 1024];
    assert!(matches!(for_reader(&img), Err(Error::UnknownSuperblock)));
    assert!(matches!(for_reader(&[]), Err(Error::UnknownSuperblock)));
}

#[test]
fn ext4_wins_over_later_kinds() {
    let mut img = ext4_image("731af94c-9990-4eed-944d-5d230dbe8a0d", b"x\0\0\0\0\0\0\0\0\0\0\0\0\0\0\0");
    put(&mut img, 0, b"XFSB");
    let sb = for_reader(&img).unwrap();
    assert_eq!(sb.kind(), Kind::Ext4);
    // ext4 labels keep their padding
    assert_eq!(sb.label().unwrap().len(), 16);
}

#[test]
fn kind_names() {
    assert_eq!(Kind::Ext4.name(), "ext4");
    assert_eq!(Kind::LUKS2.name(), "luks2");
}

#[test]
fn invalid_utf8_label() {
    let img = ext4_image("731af94c-9990-4eed-944d-5d230dbe8a0d", &[0xff; 16]);
    let sb = for_reader(&img).unwrap();
    assert!(matches!(sb.label(), Err(Error::Utf8Decoding)));
}

#[test]
fn luks2_detected_by_magic_alone() {
    let mut img = luks2_image("be373cae-2bd1-4ad5-953f-3463b2e53e59");
    put(&mut img, 168, &[0xff, 0xfe, 0x41]);
    let sb = for_reader(&img).expect("LUKS2 magic is enough");
    assert_eq!(sb.kind(), Kind::LUKS2);
    assert!(matches!(sb.uuid(), Err(Error::Utf8Decoding)));
}
