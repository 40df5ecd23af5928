use blsforme::bootenv::{first_of_type, BootEnvironment, Firmware, GptPartition, EFI_PARTITION_TYPE};
use blsforme::bootloader::{
    boot_root, entry_cmdline, find_loader_asset, reconcile, relative_path, schema_configs, stale, vendor_id,
    Error as LoaderError, InstallResult, Loader, Mounts,
};
use blsforme::entry::{CmdlineEntry, Entry};
use blsforme::file_utils::{
    changed_files, cmdline_snippet_text, copy_plan, files_identical, pair_changed, temp_path, FileState, VfatStep,
};
use blsforme::interface::{ucs2_decode, BootLoaderInterface, Error as BliError, VariableName};
use blsforme::kernel::{AuxilliaryFile, AuxilliaryKind, BootJSON, Kernel, Schema};
use blsforme::manager::{EtcSnippet, Manager};
use blsforme::os_release::{Error as OsError, OsRelease};
use blsforme::path::{file_name, file_name_of, join_insensitive, join_path, parent};
use blsforme::bootloader::Bootloader;
use blsforme::{Error, Root};

fn os(name: &str, id: &str, pretty: Option<&str>) -> OsRelease {
    let mut text = format!("NAME=\"{name}\"\nID={id}\n");
    if let Some(p) = pretty {
        text.push_str(&format!("PRETTY_NAME='{p}'\n"));
    }
    OsRelease::parse(&text).unwrap()
}

fn legacy() -> Schema {
    Schema::Legacy { namespace: "com.solus-project".to_owned(), os_release: os("Solus", "solus", None) }
}

fn modern() -> Schema {
    Schema::Blsforme { os_release: os("Serpent OS", "serpentos", None) }
}

fn strings(v: &[&str]) -> Vec<String> {
    v.iter().map(|s| s.to_string()).collect()
}

fn efivar(text: &str) -> Vec<u8> {
    let mut raw = vec![6u8, 0, 0, 0];
    for u in text.encode_utf16().chain(std::iter::once(0)) {
        raw.extend_from_slice(&u.to_le_bytes());
    }
    raw
}

fn kernel(version: &str, image: &str) -> Kernel {
    Kernel { version: version.to_owned(), image: image.to_owned(), initrd: vec![], extras: vec![], variant: None }
}

#[test]
fn basic_interface_test() {
    let b = BootLoaderInterface::new("/srv/fixture/test".to_owned());
    let raw = efivar("6CA59A0C-E8C9-4EC4-B331-351D120FBB32");
    let uuid = b.get_device_part_uuid(&raw).expect("Unable to fetch DevicePartUUID");
    assert_eq!(uuid, "6ca59a0c-e8c9-4ec4-b331-351d120fbb32");
    assert_eq!(
        b.partuuid_link(&uuid),
        "/srv/fixture/test/dev/disk/by-partuuid/6ca59a0c-e8c9-4ec4-b331-351d120fbb32"
    );
    let dev = b.device_path_from("/srv/fixture/test/dev/nvme0n1p1").expect("Unable to fetch DevicePartUUID");
    assert_eq!(dev, "/dev/nvme0n1p1");
}

#[test]
fn bli_paths_and_errors() {
    let b = BootLoaderInterface::new("/".to_owned());
    assert_eq!(
        b.join_var(VariableName::Info),
        "/sys/firmware/efi/efivars/LoaderInfo-4a67b082-0a4c-41cf-b6c7-440b29bb8c4f"
    );
    assert_eq!(b.device_path_from("/dev/sda1").unwrap(), "/dev/sda1");
    let c = BootLoaderInterface::new("/mnt/root".to_owned());
    assert!(matches!(c.device_path_from("/dev/sda1"), Err(BliError::InvalidPrefix)));
    assert!(matches!(ucs2_decode(&[1, 0, 0, 0, 65]), Err(BliError::Malformed)));
    assert!(matches!(ucs2_decode(&[1, 0, 0, 0, 0x00, 0xD8, 0, 0]), Err(BliError::UTF16Decoding)));
    assert_eq!(ucs2_decode(&efivar("systemd-boot 255")).unwrap(), "systemd-boot 255");
}

#[test]
fn cmdline_snippet_parsing() {
    assert_eq!(cmdline_snippet_text("# comment\nfoo=1\nbar=2"), "foo=1 bar=2");
    assert_eq!(cmdline_snippet_text("  quiet  \n\t# splash\nsplash\n"), "quiet splash");
    assert_eq!(cmdline_snippet_text(""), "");
}

#[test]
fn case_insensitive_join() {
    let entries = strings(&["loader", "EFI"]);
    let p = join_insensitive("/efi", &entries, "efi");
    assert!(p.ends_with("EFI"));
    assert_eq!(p, "/efi/EFI");
    assert_eq!(join_insensitive("/efi", &entries, "Boot"), "/efi/Boot");
    assert_eq!(join_path("/", "efi"), "/efi");
    assert_eq!(file_name("/usr/lib/kernel/6.8.2-25.desktop/vmlinuz"), "vmlinuz");
    assert_eq!(parent("/usr/lib/kernel/6.8.2-25.desktop/vmlinuz"), "/usr/lib/kernel/6.8.2-25.desktop");
}

#[test]
fn changed_file_detection() {
    let v = vec![1u8, 2, 3, 4, 5];
    let a = FileState { regular: true, bytes: v.clone() };
    let b = FileState { regular: true, bytes: v.clone() };
    assert!(files_identical(&a, &b));
    let mut w = v.clone();
    w[2] ^= 0xff;
    let c = FileState { regular: true, bytes: w };
    assert!(!files_identical(&a, &c));
    let pairs = vec![("s1".to_owned(), "d1".to_owned()), ("s2".to_owned(), "d2".to_owned()), ("s3".to_owned(), "d3".to_owned())];
    let states = vec![
        (Some(FileState { regular: true, bytes: v.clone() }), Some(FileState { regular: true, bytes: v.clone() })),
        (Some(FileState { regular: true, bytes: v.clone() }), None),
        (Some(FileState { regular: true, bytes: v.clone() }), Some(FileState { regular: true, bytes: vec![1, 2, 3] })),
    ];
    let changed = changed_files(&pairs, &states);
    assert_eq!(changed, vec![("s2".to_owned(), "d2".to_owned()), ("s3".to_owned(), "d3".to_owned())]);
    assert!(pair_changed(&None, &None));
}

#[test]
fn changed_against_itself_is_empty() {
    for len in [0usize, 1, 7, 64, 1000] {
        let v: Vec<u8> = (0..len).map(|i| (i * 31 % 251) as u8).collect();
        let pairs = vec![("a".to_owned(), "a".to_owned())];
        let same = vec![(Some(FileState { regular: true, bytes: v.clone() }), Some(FileState { regular: true, bytes: v.clone() }))];
        assert!(changed_files(&pairs, &same).is_empty());
        if len > 0 {
            let mut m = v.clone();
            m[len / 2] = m[len / 2].wrapping_add(1);
            let diff = vec![(Some(FileState { regular: true, bytes: v.clone() }), Some(FileState { regular: true, bytes: m }))];
            assert_eq!(changed_files(&pairs, &diff).len(), 1);
        }
    }
}

#[test]
fn atomic_vfat_plan() {
    assert_eq!(temp_path("/efi/EFI/Boot/BOOTX64.EFI"), "/efi/EFI/Boot/BOOTX64.EFI.TmpWrite");
    assert_eq!(
        copy_plan(true),
        vec![
            VfatStep::EnsureParent,
            VfatStep::WriteTemp,
            VfatStep::Sync,
            VfatStep::RemoveDest,
            VfatStep::Sync,
            VfatStep::RenameTemp,
            VfatStep::Sync
        ]
    );
    assert_eq!(copy_plan(false).len(), 5);
    assert_eq!(copy_plan(false)[3], VfatStep::RenameTemp);
}

#[test]
fn legacy_kernel_discovery() {
    let paths = strings(&[
        "/usr/lib/kernel/com.solus-project.native.6.8.2-25",
        "/usr/lib/kernel/initrd-com.solus-project.native.6.8.2-25",
        "/usr/lib/kernel/cmdline-6.8.2-25.native",
        "/usr/lib/kernel/config-6.8.2-25.native",
        "/usr/lib/kernel/System.map-6.8.2-25.native",
    ]);
    let kernels = legacy().discover_system_kernels(&paths);
    assert_eq!(kernels.len(), 1);
    let k = &kernels[0];
    assert_eq!(k.version, "6.8.2-25");
    assert_eq!(k.variant.as_deref(), Some("native"));
    assert_eq!(k.image, "/usr/lib/kernel/com.solus-project.native.6.8.2-25");
    assert_eq!(k.initrd.len(), 1);
    assert_eq!(k.initrd[0].kind, AuxilliaryKind::InitRD);
    assert_eq!(k.extras.len(), 3);
    let extras: Vec<&str> = k.extras.iter().map(|e| e.path.as_str()).collect();
    assert_eq!(
        extras,
        vec![
            "/usr/lib/kernel/cmdline-6.8.2-25.native",
            "/usr/lib/kernel/config-6.8.2-25.native",
            "/usr/lib/kernel/System.map-6.8.2-25.native"
        ]
    );
}

#[test]
fn legacy_kernels_sorted_and_deduplicated() {
    let paths = strings(&[
        "/a/com.solus-project.lts.6.6.1-300",
        "/a/com.solus-project.current.5.1-2",
        "/b/com.solus-project.native.6.6.1-300",
        "/a/com.solus-project.noversion",
        "/a/com.solus-projectX.native.1-1",
    ]);
    let kernels = legacy().discover_system_kernels(&paths);
    let versions: Vec<&str> = kernels.iter().map(|k| k.version.as_str()).collect();
    assert_eq!(versions, vec!["5.1-2", "6.6.1-300"]);
    assert_eq!(kernels[1].image, "/b/com.solus-project.native.6.6.1-300");
}

#[test]
fn modern_kernel_discovery() {
    let paths = strings(&[
        "/usr/lib/kernel/6.8.2-25.desktop",
        "/usr/lib/kernel/6.8.2-25.desktop/vmlinuz",
        "/usr/lib/kernel/6.8.2-25.desktop/desktop.initrd",
        "/usr/lib/kernel/6.8.2-25.desktop/boot.json",
        "/usr/lib/kernel/6.8.2-25.desktop/config",
        "/usr/lib/kernel/6.8.2-25.desktop/README",
    ]);
    let mut kernels = modern().discover_system_kernels(&paths);
    assert_eq!(kernels.len(), 1);
    let k = &mut kernels[0];
    assert_eq!(k.version, "6.8.2-25.desktop");
    assert_eq!(k.initrd.len(), 1);
    assert_eq!(k.initrd[0].path, "/usr/lib/kernel/6.8.2-25.desktop/desktop.initrd");
    assert_eq!(k.extras.len(), 2);
    assert_eq!(k.extras[0].kind, AuxilliaryKind::BootJSON);
    assert_eq!(k.extras[1].kind, AuxilliaryKind::Config);
    assert!(k.variant.is_none());
    let boot = BootJSON {
        name: "linux-desktop".to_owned(),
        version: "6.8.2-25.desktop".to_owned(),
        variant: "desktop".to_owned(),
    };
    k.set_variant_from(&boot);
    assert_eq!(k.variant.as_deref(), Some("desktop"));
}

#[test]
fn modern_kernels_sorted_by_version() {
    let paths = strings(&[
        "/k/6.9.1-1.lts/vmlinuz",
        "/k/6.10.0-2.desktop/vmlinuz",
        "/k/6.10.0-2.desktop/B.initrd",
        "/k/6.10.0-2.desktop/a.initrd",
        "/k/6.10.0-2.desktop/a.initrd",
        "vmlinuz",
    ]);
    let kernels = modern().discover_system_kernels(&paths);
    let versions: Vec<&str> = kernels.iter().map(|k| k.version.as_str()).collect();
    assert_eq!(versions, vec!["6.10.0-2.desktop", "6.9.1-1.lts"]);
    let initrds: Vec<&str> = kernels[0].initrd.iter().map(|a| a.path.as_str()).collect();
    assert_eq!(initrds, vec!["/k/6.10.0-2.desktop/a.initrd", "/k/6.10.0-2.desktop/B.initrd"]);
}

#[test]
fn entry_ids() {
    let k = kernel("6.8.2-25", "/usr/lib/kernel/com.solus-project.native.6.8.2-25");
    assert_eq!(Entry::new(&k).id(&legacy()), "Solus-6.8.2-25");
    let m = kernel("6.8.2-25.desktop", "/usr/lib/kernel/6.8.2-25.desktop/vmlinuz");
    assert_eq!(Entry::new(&m).with_state_id(42).id(&modern()), "serpentos-6.8.2-25.desktop-42");
    assert_eq!(Entry::new(&m).with_state_id(-3).id(&modern()), "serpentos-6.8.2-25.desktop--3");
}

#[test]
fn installed_names() {
    let mut k = kernel("6.8.2-25", "/usr/lib/kernel/com.solus-project.native.6.8.2-25");
    let initrd = AuxilliaryFile {
        path: "/usr/lib/kernel/initrd-com.solus-project.native.6.8.2-25".to_owned(),
        kind: AuxilliaryKind::InitRD,
    };
    let config = AuxilliaryFile { path: "/usr/lib/kernel/config-6.8.2-25.native".to_owned(), kind: AuxilliaryKind::Config };
    k.initrd.push(AuxilliaryFile { path: initrd.path.clone(), kind: AuxilliaryKind::InitRD });
    let e = Entry::new(&k);
    assert_eq!(e.installed_kernel_name(&legacy()).unwrap(), "kernel-com.solus-project.native.6.8.2-25");
    assert_eq!(
        e.installed_asset_name(&legacy(), &initrd).unwrap(),
        "initrd-initrd-com.solus-project.native.6.8.2-25"
    );
    assert!(e.installed_asset_name(&legacy(), &config).is_none());
    assert_eq!(e.installed_kernel_name(&modern()).unwrap(), "6.8.2-25/vmlinuz");
    assert_eq!(
        e.installed_asset_name(&modern(), &initrd).unwrap(),
        "6.8.2-25/initrd-com.solus-project.native.6.8.2-25"
    );
}

#[test]
fn loader_entry_stanza() {
    let schema = Schema::Blsforme { os_release: os("Serpent OS", "serpentos", Some("Serpent OS 2025")) };
    let mut k = kernel("6.8.2-25.desktop", "/usr/lib/kernel/6.8.2-25.desktop/vmlinuz");
    k.initrd.push(AuxilliaryFile { path: "/usr/lib/kernel/6.8.2-25.desktop/desktop.initrd".to_owned(), kind: AuxilliaryKind::InitRD });
    let mounts = Mounts { xbootldr: None, esp: Some("/efi".to_owned()) };
    let loader = Loader::new(&schema, vec![], mounts, "/efi/EFI/serpentos".to_owned()).unwrap();
    assert_eq!(loader.boot_root, "/efi");
    let dir = relative_path(&loader.kernel_dir, &loader.boot_root);
    assert_eq!(dir, "EFI/serpentos");
    let e = Entry::new(&k);
    let text = loader.generate_entry(&dir, "root=UUID=x rw", &e);
    assert_eq!(
        text,
        "title Serpent OS 2025 (6.8.2-25.desktop)\nlinux /EFI/serpentos/6.8.2-25.desktop/vmlinuz\ninitrd /EFI/serpentos/6.8.2-25.desktop/desktop.initrd\noptions root=UUID=x rw\n"
    );
}

#[test]
fn boot_root_and_assets() {
    assert_eq!(boot_root(&Mounts { xbootldr: Some("/boot".to_owned()), esp: Some("/efi".to_owned()) }).unwrap(), "/boot");
    assert!(matches!(boot_root(&Mounts { xbootldr: None, esp: None }), Err(LoaderError::MissingMount(_))));
    let assets = strings(&["/usr/lib/systemd/boot/efi/linuxx64.efi.stub", "/usr/lib/systemd/boot/efi/systemd-bootx64.efi"]);
    assert_eq!(find_loader_asset(&assets).unwrap(), "/usr/lib/systemd/boot/efi/systemd-bootx64.efi");
    assert!(matches!(find_loader_asset(&vec![]), Err(LoaderError::MissingFile(_))));
    assert_eq!(vendor_id(&legacy()), "com.solus-project");
    assert_eq!(vendor_id(&modern()), "serpentos");
}

#[test]
fn reconciliation() {
    let existing_dirs = strings(&["/efi/EFI/serpentos/A", "/efi/EFI/serpentos/B", "/efi/EFI/serpentos/C"]);
    let installed_dirs = strings(&["/efi/EFI/serpentos/B", "/efi/EFI/serpentos/C"]);
    assert_eq!(stale(&existing_dirs, &installed_dirs), strings(&["/efi/EFI/serpentos/A"]));
    let names = strings(&["serpentos-A.conf", "serpentos-B.conf", "other-X.conf", "serpentos-C.conf"]);
    let own = schema_configs(&names, &modern());
    assert_eq!(own, strings(&["serpentos-A.conf", "serpentos-B.conf", "serpentos-C.conf"]));
    let confs: Vec<String> = own.iter().map(|n| format!("/efi/loader/entries/{n}")).collect();
    let written = strings(&["/efi/loader/entries/serpentos-B.conf", "/efi/loader/entries/serpentos-C.conf"]);
    assert_eq!(stale(&confs, &written), strings(&["/efi/loader/entries/serpentos-A.conf"]));
}

fn uefi_env() -> BootEnvironment {
    BootEnvironment::new(Firmware::UEFI, false, Some("/dev/nvme0n1p1".to_owned()), None, None, &vec![]).unwrap()
}

#[test]
fn global_exclusion_via_dev_null() {
    let etc = vec![
        EtcSnippet { name: "20-local.cmdline".to_owned(), dev_null_link: false, text: Some("# mine\nloglevel=3\n".to_owned()) },
        EtcSnippet { name: "10-quiet.cmdline".to_owned(), dev_null_link: true, text: None },
        EtcSnippet { name: "README".to_owned(), dev_null_link: false, text: Some("nope".to_owned()) },
    ];
    let m = Manager::new("/".to_owned(), false, "root=UUID=abc".to_owned(), etc, uefi_env());
    assert_eq!(m.cmdline, strings(&["root=UUID=abc", "rw", "loglevel=3"]));
    assert_eq!(m.system_excluded_snippets, strings(&["10-quiet.cmdline"]));
    let k = kernel("6.8.2-25.desktop", "/usr/lib/kernel/6.8.2-25.desktop/vmlinuz");
    let e = Entry::new(&k)
        .with_cmdline(CmdlineEntry { name: "10-quiet.cmdline".to_owned(), snippet: "quiet splash".to_owned() })
        .with_cmdline(CmdlineEntry { name: "20-x.cmdline".to_owned(), snippet: "x=1".to_owned() });
    let line = entry_cmdline(&m.cmdline, &e.cmdline, &m.system_excluded_snippets);
    assert_eq!(line, "root=UUID=abc rw loglevel=3 x=1");
    assert!(!line.contains("quiet"));
}

#[test]
fn manager_mounts() {
    let m = Manager::new("/".to_owned(), false, "root=/dev/sda2".to_owned(), vec![], uefi_env());
    assert_eq!(m.mounts.esp.as_deref(), Some("/efi"));
    assert!(m.mounts.xbootldr.is_none());
    let plan = m.mount_partitions().unwrap();
    assert_eq!(plan.len(), 1);
    assert_eq!(plan[0].device, "/dev/nvme0n1p1");
    assert_eq!(plan[0].mountpoint, "/efi");
    assert!(m.check_sync().is_ok());
    let img = Manager::new("/img".to_owned(), true, "root=/dev/sda2".to_owned(), vec![], uefi_env());
    assert!(img.mount_partitions().unwrap().is_empty());
    assert!(matches!(img.check_sync(), Err(Error::UnmountedESP(_))));
    let m = m.with_bootloader_assets(strings(&["/x/systemd-bootx64.efi"]));
    assert_eq!(m.bootloader_assets.len(), 1);
    assert!(m.boot_environment().esp().is_some());
}

#[test]
fn boot_environment_resolution() {
    let mounted = vec![("/dev/nvme0n1p1".to_owned(), "/boot/efi".to_owned()), ("/dev/nvme0n1p3".to_owned(), "/boot".to_owned())];
    let env = BootEnvironment::new(
        Firmware::UEFI,
        false,
        None,
        Some("/dev/nvme0n1p1".to_owned()),
        Some("/dev/nvme0n1p3".to_owned()),
        &mounted,
    )
    .unwrap();
    assert_eq!(env.esp().map(|s| s.as_str()), Some("/dev/nvme0n1p1"));
    assert_eq!(env.boot_partition().map(|s| s.as_str()), Some("/dev/nvme0n1p3"));
    assert_eq!(env.esp_mountpoint.as_deref(), Some("/boot/efi"));
    assert_eq!(env.xboot_mountpoint.as_deref(), Some("/boot"));
    assert!(matches!(BootEnvironment::new(Firmware::UEFI, false, None, None, None, &vec![]), Err(Error::NoESP)));
    let bios = BootEnvironment::new(Firmware::BIOS, false, None, None, Some("/dev/x".to_owned()), &vec![]).unwrap();
    assert!(bios.esp().is_none());
    assert!(bios.xbootldr().is_none());
    let image = BootEnvironment::new(Firmware::UEFI, true, Some("/dev/a".to_owned()), Some("/dev/b".to_owned()), None, &vec![]).unwrap();
    assert_eq!(image.esp.as_deref(), Some("/dev/b"));
    let parts = vec![
        GptPartition { type_guid: "0fc63daf-8483-4772-8e79-3d69d8477de4".to_owned(), part_guid: "11111111-1111-1111-1111-111111111111".to_owned() },
        GptPartition { type_guid: EFI_PARTITION_TYPE.to_owned(), part_guid: "6ca59a0c-e8c9-4ec4-b331-351d120fbb32".to_owned() },
    ];
    assert_eq!(first_of_type(&parts, EFI_PARTITION_TYPE).as_deref(), Some("6ca59a0c-e8c9-4ec4-b331-351d120fbb32"));
}

#[test]
fn os_release_parsing() {
    let text = "# comment\nNAME=\"Solus\"\nID=solus\nVERSION=\"4.5\"\nPRETTY_NAME='Solus 4.5 Resilience'\nHOME_URL=\"https://getsol.us\"\nNAME=Later\n";
    let o = OsRelease::parse(text).unwrap();
    assert_eq!(o.name, "Later");
    assert_eq!(o.id, "solus");
    assert_eq!(o.version.name.as_deref(), Some("4.5"));
    assert_eq!(o.meta.pretty_name.as_deref(), Some("Solus 4.5 Resilience"));
    assert_eq!(o.urls.homepage.as_deref(), Some("https://getsol.us"));
    assert!(o.support_ends.is_none());
    assert!(matches!(OsRelease::parse("ID=x\n"), Err(OsError::MissingKey(k)) if k == "NAME"));
    assert!(matches!(OsRelease::parse("NAME=x\n"), Err(OsError::MissingKey(k)) if k == "ID"));
}

#[test]
fn root_paths() {
    assert_eq!(Root::Native("/".to_owned()).path(), "/");
    assert_eq!(Root::Image("/img".to_owned()).path(), "/img");
    assert!(Root::Image("/img".to_owned()).is_image());
}

#[test]
fn schema_choice() {
    let solus4 = OsRelease::parse("NAME=Solus\nID=solus\nVERSION=\"4.5\"\n").unwrap();
    assert!(matches!(Schema::for_os_release(solus4), Schema::Legacy { namespace, .. } if namespace == "com.solus-project"));
    let solus5 = OsRelease::parse("NAME=Solus\nID=solus\nVERSION=\"5.0\"\n").unwrap();
    assert!(matches!(Schema::for_os_release(solus5), Schema::Blsforme { .. }));
    let clear = OsRelease::parse("NAME=\"Clear Linux OS\"\nID=clear-linux-os\n").unwrap();
    assert!(matches!(Schema::for_os_release(clear), Schema::Legacy { namespace, .. } if namespace == "org.clearlinux"));
    let serpent = OsRelease::parse("NAME=\"Serpent OS\"\nID=serpentos\n").unwrap();
    let s = Schema::for_os_release(serpent);
    assert_eq!(s.os_release().id, "serpentos");
    assert_eq!(vendor_id(&s), "serpentos");
}

#[test]
fn sync_reconciliation_removes_only_a() {
    let names = strings(&["serpentos-A.conf", "serpentos-B.conf", "serpentos-C.conf", "other-A.conf"]);
    let dirs = strings(&["/efi/EFI/serpentos/A", "/efi/EFI/serpentos/B", "/efi/EFI/serpentos/C"]);
    let installed = vec![
        InstallResult {
            loader_conf: "/efi/loader/entries/serpentos-B.conf".to_owned(),
            kernel_dir: "/efi/EFI/serpentos/B".to_owned(),
        },
        InstallResult {
            loader_conf: "/efi/loader/entries/serpentos-C.conf".to_owned(),
            kernel_dir: "/efi/EFI/serpentos/C".to_owned(),
        },
    ];
    let (confs, trees) = reconcile(&modern(), "/efi/loader/entries", &names, &dirs, &installed);
    assert_eq!(confs, strings(&["/efi/loader/entries/serpentos-A.conf"]));
    assert_eq!(trees, strings(&["/efi/EFI/serpentos/A"]));
}

#[test]
fn loader_asset_errors_name_the_file() {
    match find_loader_asset(&strings(&["/x/grubx64.efi"])) {
        Err(LoaderError::MissingFile(f)) => assert_eq!(f, "systemd-bootx64.efi"),
        _ => panic!("expected a missing file"),
    }
    match boot_root(&Mounts { xbootldr: None, esp: None }) {
        Err(LoaderError::MissingMount(m)) => assert_eq!(m, "ESP (/efi)"),
        _ => panic!("expected a missing mount"),
    }
}

#[test]
fn stable_case_insensitive_order() {
    let paths = strings(&[
        "/k/1.0/vmlinuz",
        "/k/1.0/X.initrd",
        "/k/1.0/b.initrd",
        "/k/1.0/x.initrd",
        "/k/1.0/A.initrd",
    ]);
    let kernels = modern().discover_system_kernels(&paths);
    let initrds: Vec<&str> = kernels[0].initrd.iter().map(|a| a.path.as_str()).collect();
    assert_eq!(initrds, vec!["/k/1.0/A.initrd", "/k/1.0/b.initrd", "/k/1.0/X.initrd", "/k/1.0/x.initrd"]);
}

#[test]
fn installed_names_need_a_file_name() {
    let initrd = |p: &str| AuxilliaryFile { path: p.to_owned(), kind: AuxilliaryKind::InitRD };
    for image in ["", "/", "/usr/lib/kernel/.."] {
        let k = kernel("6.8.2-25", image);
        let e = Entry::new(&k);
        assert!(e.installed_kernel_name(&legacy()).is_none());
        assert_eq!(e.installed_kernel_name(&modern()).unwrap(), "6.8.2-25/vmlinuz");
        assert!(e.installed_asset_name(&legacy(), &initrd(image)).is_none());
        assert!(e.installed_asset_name(&modern(), &initrd(image)).is_none());
    }
    let k = kernel("6.8.2-25", "/usr/lib/kernel/./com.solus-project.native.6.8.2-25/.");
    assert_eq!(
        Entry::new(&k).installed_kernel_name(&legacy()).unwrap(),
        "kernel-com.solus-project.native.6.8.2-25"
    );
    assert_eq!(file_name_of("foo.txt/.//").as_deref(), Some("foo.txt"));
    assert!(file_name_of(".").is_none());
}

#[test]
fn bios_is_unsupported() {
    let schema = modern();
    let mounts = || Mounts { xbootldr: None, esp: Some("/efi".to_owned()) };
    assert!(matches!(
        Bootloader::new(&schema, vec![], mounts(), "/efi/EFI/serpentos".to_owned(), Firmware::BIOS),
        Err(Error::Unsupported)
    ));
    let Ok(Bootloader::Systemd(l)) =
        Bootloader::new(&schema, vec![], mounts(), "/efi/EFI/serpentos".to_owned(), Firmware::UEFI)
    else {
        panic!("expected systemd-boot");
    };
    assert_eq!(l.boot_root, "/efi");
    assert!(matches!(
        Bootloader::new(&schema, vec![], Mounts { xbootldr: None, esp: None }, String::new(), Firmware::UEFI),
        Err(Error::Bootloader(LoaderError::MissingMount(_)))
    ));
}
