use blsforme::device::{parent_disk_name, BlockDevice, Builder, Probe};
use blsforme::mtab::{MountOption, MountTable};
use blsforme::superblock::Kind;

fn uuid_bytes(s: &str) -> Vec<u8> {
    let hex: Vec<u8> = s.bytes().filter(|b| *b != b'-').collect();
    hex.chunks(2)
        .map(|c| u8::from_str_radix(std::str::from_utf8(c).unwrap(), 16).unwrap())
        .collect()
}

fn ext4_image(uuid: &str) -> Vec<u8> {
    let mut b = vec![0u8; 4096];
    b[1080] = 0x53;
    b[1081] = 0xEF;
    b[1128..1144].copy_from_slice(&uuid_bytes(uuid));
    b
}

fn btrfs_image(uuid: &str) -> Vec<u8> {
    let mut b = vec![0u8; 0x10000 + 4096];
    b[0x10040..0x10048].copy_from_slice(b"_BHRfS_M");
    b[0x10020..0x10030].copy_from_slice(&uuid_bytes(uuid));
    b
}

fn luks2_image(uuid: &str) -> Vec<u8> {
    let mut b = vec![0u8; 8192];
    b[0..6].copy_from_slice(&[b'L', b'U', b'K', b'S', 0xba, 0xbe]);
    b[168..168 + uuid.len()].copy_from_slice(uuid.as_bytes());
    b
}

fn probe(mounts: &str) -> Probe {
    let b = Builder::new()
        .with_devfs("tests/fixture/dev".to_owned())
        .with_sysfs("tests/fixture/sys".to_owned())
        .with_procfs("tests/fixture/proc".to_owned());
    Probe::new(b.sysfs, b.devfs, b.procfs, MountTable::new(mounts.to_owned()))
}

#[test]
fn ext4_gpt_topology_test() {
    let topo = probe("/dev/nvme0n1p1 / ext4 rw,relatime 0 0\n");
    let heads = vec![ext4_image("1f5cb158-4a0e-48e2-a339-157d8133f05f")];
    let block = topo.get_rootfs_device(
        "/",
        "tests/ext4_gpt/dev/nvme0n1p1",
        &vec![],
        &heads,
        Some("6ca59a0c-e8c9-4ec4-b331-351d120fbb32".to_owned()),
    )
    .expect("Failed to determine block device");
    assert_eq!(block.path, "tests/ext4_gpt/dev/nvme0n1p1");
    assert_eq!(block.uuid.as_deref(), Some("1f5cb158-4a0e-48e2-a339-157d8133f05f"));
    assert_eq!(block.kind, Some(Kind::Ext4));
    let cmdline = block.cmd_line();
    assert_eq!(cmdline, "root=PARTUUID=6ca59a0c-e8c9-4ec4-b331-351d120fbb32");
}

#[test]
fn btrfs_gpt_lvm_on_luks_topology_test() {
    let topo = probe(
        "proc /proc proc rw 0 0\n/dev/mapper/BogusInstall-root / btrfs rw,relatime,ssd,subvolid=5,subvol=/ 0 0\n",
    );
    let root = "tests/btrfs_gpt_lvm_on_luks/dev/mapper/BogusInstall-root";
    let chain = vec![
        "tests/btrfs_gpt_lvm_on_luks/dev/dm-0".to_owned(),
        "tests/btrfs_gpt_lvm_on_luks/dev/nvme0n1p2".to_owned(),
    ];
    let heads = vec![
        btrfs_image("2a78a4da-f110-4441-8839-dbd97ab87cda"),
        vec![0u8; 512],
        luks2_image("b6b31f26-39f4-48f7-bed5-6faaff96cca4"),
    ];
    let block = topo.get_rootfs_device("/", root, &chain, &heads, None).expect("Failed to determine block device");
    assert_eq!(block.children.len(), 2);
    assert_eq!(block.children[0].uuid.as_deref(), Some("2a78a4da-f110-4441-8839-dbd97ab87cda"));
    assert_eq!(block.children[0].kind, Some(Kind::Btrfs));
    let cmdline = block.cmd_line();
    assert_eq!(
        cmdline,
        "rd.luks.uuid=b6b31f26-39f4-48f7-bed5-6faaff96cca4 root=UUID=2a78a4da-f110-4441-8839-dbd97ab87cda rootfsflags=subvol=/"
    );
}

#[test]
fn unknown_device_names_itself() {
    let table = MountTable::new("/dev/sda1 / vfat rw 0 0\n".to_owned());
    let d = BlockDevice::new("/dev/sda1", &[], Some("/".to_owned()), false, &table).unwrap();
    assert_eq!(d.cmd_line(), "root=/dev/sda1");
    let aux = BlockDevice::new("/dev/sda1", &[], None, true, &table).unwrap();
    assert_eq!(aux.cmd_line(), "");
}

#[test]
fn btrfs_without_subvol() {
    let table = MountTable::new("/dev/sda2 / btrfs rw,relatime 0 0\n".to_owned());
    let d = BlockDevice::new(
        "/dev/sda2",
        &btrfs_image("829d6a03-96a5-4749-9ea2-dbb6e59368b2"),
        Some("/".to_owned()),
        false,
        &table,
    )
    .unwrap();
    assert_eq!(d.cmd_line(), "root=UUID=829d6a03-96a5-4749-9ea2-dbb6e59368b2");
}

#[test]
fn ext4_without_guid_uses_uuid() {
    let table = MountTable::new(String::new());
    let d = BlockDevice::new("/dev/sda3", &ext4_image("1f5cb158-4a0e-48e2-a339-157d8133f05f"), None, true, &table).unwrap();
    assert_eq!(d.cmd_line(), "root=UUID=1f5cb158-4a0e-48e2-a339-157d8133f05f");
}

#[test]
fn parent_disk_names() {
    assert_eq!(
        parent_disk_name("/sys/devices/pci0000:00/0000:00:1d.0/nvme/nvme0/nvme0n1/nvme0n1p1").as_deref(),
        Some("nvme0n1")
    );
    assert_eq!(parent_disk_name("/sys/devices/virtual/block/dm-0"), None);
}

#[test]
fn mount_table_parsing() {
    let t = MountTable::new(
        "sysfs /sys sysfs rw,nosuid 0 0\n\nshort line\n/dev/sda1   /boot  vfat rw,fmask=0022,umask=0077 0 0".to_owned(),
    );
    let mounts = t.iter();
    assert_eq!(mounts.len(), 2);
    assert_eq!(mounts[1].device, "/dev/sda1");
    assert_eq!(mounts[1].mountpoint, "/boot");
    assert_eq!(mounts[1].filesystem, "vfat");
    let opts = mounts[1].options();
    assert_eq!(opts.len(), 3);
    assert!(opts[0].is_flag());
    assert!(opts[1].is_option());
    match &opts[1] {
        MountOption::Option(k, v) => {
            assert_eq!(k, "fmask");
            assert_eq!(v, "0022");
        }
        MountOption::Flag(_) => panic!("expected an option"),
    }
    assert_eq!(mounts[1].option("umask").as_deref(), Some("0077"));
    assert_eq!(t.mount_at("/boot").unwrap().device, "/dev/sda1");
    assert!(t.mount_at("/nope").is_none());
    assert_eq!(t.first_with(0, "/dev/sda1").unwrap().mountpoint, "/boot");
    assert_eq!(t.first_with(2, "vfat").unwrap().device, "/dev/sda1");
    assert_eq!(t.first_with(3, "rw,nosuid").unwrap().device, "sysfs");
}

#[test]
fn cmd_line_whitespace_is_normalised() {
    let table = MountTable::new(String::new());
    let d = BlockDevice::new("a  b", &[], None, false, &table).unwrap();
    assert_eq!(d.cmd_line(), "root=a b");
    let mut root = BlockDevice::new("/dev/x", &[], None, true, &table).unwrap();
    root.children.push(BlockDevice::new("/dev/y", &[], None, true, &table).unwrap());
    root.children.push(BlockDevice::new("/dev/z", &[], None, false, &table).unwrap());
    assert_eq!(root.cmd_line(), "root=/dev/z");
}

#[test]
fn unreadable_luks2_uuid_is_an_error() {
    let topo = probe("/dev/mapper/root / ext4 rw 0 0\n");
    let mut luks = luks2_image("b6b31f26-39f4-48f7-bed5-6faaff96cca4");
    luks[168] = 0xff;
    let heads = vec![ext4_image("1f5cb158-4a0e-48e2-a339-157d8133f05f"), luks];
    let chain = vec!["/dev/sda2".to_owned()];
    assert!(matches!(
        topo.get_rootfs_device("/", "/dev/mapper/root", &chain, &heads, None),
        Err(blsforme::superblock::Error::Utf8Decoding)
    ));
}
