//! The block device tree under the root filesystem, and the kernel command
//! line that locates it.

use crate::mtab::{last_at, option_value, options_of, table_rows, MountTable};
use crate::path::{base_name, dir_name, file_name, parent};
use crate::superblock::{any_fits, for_reader, kind_in, uuid_in, Error as SbError, Kind};
use crate::text::{append_chars, chars_eq, chars_of, fields, fields_of, join, join_chars, string_from, views};
use vstd::prelude::*;

verus! {

/// A block device with the devices that back it.
pub struct BlockDevice {
    /// Filesystem or container found on the device, if recognised
    pub kind: Option<Kind>,
    /// Where the device is mounted, if it is the mounted one
    pub mountpoint: Option<String>,
    /// Device path
    pub path: String,
    /// Block devices living under this device
    pub children: Vec<BlockDevice>,
    /// Superblock UUID
    pub uuid: Option<String>,
    /// GPT partition GUID
    pub guid: Option<String>,
    /// Intermediate device that does not itself name the root
    pub aux: bool,
    /// The `subvol=` option of the mount at `mountpoint`
    pub subvol: Option<String>,
}

/// Locations of `/sys`, `/dev` and `/proc`, and the mount table read from the latter.
pub struct Probe {
    pub sysfs: String,
    pub devfs: String,
    pub procfs: String,
    pub mounts: MountTable,
}

/// Builder for a [`Probe`], defaulting to the running system's locations.
pub struct Builder {
    pub sysfs: String,
    pub devfs: String,
    pub procfs: String,
}

pub open spec fn opt_view(o: Option<String>) -> Option<Seq<char>> {
    match o {
        Some(s) => Some(s@),
        None => None,
    }
}

/// The `subvol=` option of the last mount at `mount` in the table rows.
pub open spec fn subvol_at(rows: Seq<Seq<Seq<char>>>, mount: Option<Seq<char>>) -> Option<
    Seq<char>,
> {
    match mount {
        None => None,
        Some(mp) => match last_at(rows, mp) {
            None => None,
            Some(i) => option_value(options_of(rows[i][3]), "subvol"@),
        },
    }
}

/// `d` is a childless node for the device at `path` whose contents start with
/// `head`, mounted at `mount` (by the table `rows`).
pub open spec fn is_node(
    d: BlockDevice,
    path: Seq<char>,
    head: Seq<u8>,
    mount: Option<Seq<char>>,
    aux: bool,
    rows: Seq<Seq<Seq<char>>>,
) -> bool {
    &&& d.path@ == path
    &&& d.aux == aux
    &&& opt_view(d.mountpoint) == mount
    &&& d.children@.len() == 0
    &&& any_fits(head) ==> d.kind == Some(kind_in(head)) && Ok::<Seq<char>, SbError>(
        opt_view(d.uuid)->0,
    ) == uuid_in(head) && d.uuid is Some
    &&& !any_fits(head) ==> d.kind is None && d.uuid is None
    &&& opt_view(d.subvol) == subvol_at(rows, mount)
}

/// The superblock found at the start of `head`, if any, has a readable UUID.
pub open spec fn head_readable(head: Seq<u8>) -> bool {
    any_fits(head) ==> uuid_in(head) is Ok
}

/// The tree for the root filesystem mounted at `path` from `device`, backed by
/// `chain` (depth first): the deepest backing device is the root of the tree
/// and carries the partition GUID; the other devices are its children in
/// order, and only `device` itself is mounted and not auxiliary.
pub open spec fn is_rootfs_tree(
    r: BlockDevice,
    path: Seq<char>,
    device: Seq<char>,
    chain: Seq<Seq<char>>,
    heads: Seq<Seq<u8>>,
    guid: Option<Seq<char>>,
    rows: Seq<Seq<Seq<char>>>,
) -> bool {
    let all = seq![device] + chain;
    let n = chain.len() as int;
    &&& r.path@ == all[n]
    &&& r.aux
    &&& r.mountpoint is None
    &&& opt_view(r.guid) == guid
    &&& any_fits(heads[n]) ==> r.kind == Some(kind_in(heads[n])) && r.uuid is Some && Ok::<
        Seq<char>,
        SbError,
    >(opt_view(r.uuid)->0) == uuid_in(heads[n])
    &&& !any_fits(heads[n]) ==> r.kind is None && r.uuid is None
    &&& r.subvol is None
    &&& r.children@.len() == n
    &&& forall|k: int|
        0 <= k < n ==> is_node(
            #[trigger] r.children@[k],
            all[k],
            heads[k],
            if all[k] == device {
                Some(path)
            } else {
                None
            },
            all[k] != device,
            rows,
        )
}

/// The name of the disk holding a block device, from the canonical sysfs path
/// of the device: the directory above it, unless that is the `block` class
/// directory itself.
pub open spec fn parent_disk(sysfs_path: Seq<char>) -> Option<Seq<char>> {
    let name = base_name(dir_name(sysfs_path));
    if name == "block"@ {
        None
    } else {
        Some(name)
    }
}

/// The command line fragment that a device contributes by itself.
pub open spec fn local_fragment(d: BlockDevice) -> Seq<char> {
    match d.kind {
        Some(Kind::Btrfs) => match d.uuid {
            Some(u) => match d.subvol {
                Some(s) => "root=UUID="@ + u@ + " rootfsflags=subvol="@ + s@,
                None => "root=UUID="@ + u@,
            },
            None => seq![],
        },
        Some(Kind::LUKS2) => match d.uuid {
            Some(u) => "rd.luks.uuid="@ + u@,
            None => seq![],
        },
        Some(_) => match d.guid {
            Some(g) => "root=PARTUUID="@ + g@,
            None => match d.uuid {
                Some(u) => "root=UUID="@ + u@,
                None => seq![],
            },
        },
        None => if d.aux {
            seq![]
        } else {
            "root="@ + d.path@
        },
    }
}

/// The command line of a device: its own fragment, then those of its
/// children in order, with every run of white space reduced to one space
/// and none at either end.
pub open spec fn cmd_line_of(d: BlockDevice) -> Seq<char>
    decreases d, 1int,
{
    join(
        fields(join(seq![local_fragment(d)] + child_lines(d, d.children@.len() as int), seq![' '])),
        seq![' '],
    )
}

/// The command lines of the first `n` children of `d`.
pub open spec fn child_lines(d: BlockDevice, n: int) -> Seq<Seq<char>>
    decreases d, 0int, n,
{
    if n <= 0 || n > d.children@.len() {
        seq![]
    } else {
        child_lines(d, n - 1).push(cmd_line_of(d.children@[n - 1]))
    }
}

fn cat(a: &str, b: &str) -> (r: Vec<char>)
    ensures
        r@ == a@ + b@,
{
    let mut r = chars_of(a);
    let c = chars_of(b);
    append_chars(&mut r, &c);
    r
}

impl BlockDevice {
    /// A device node without children: `head` is a prefix of the device's
    /// contents (empty where it cannot be read); the `subvol=` option is taken
    /// from the last mount at `mountpoint` in `mounts`.
    pub fn new(
        path: &str,
        head: &[u8],
        mountpoint: Option<String>,
        aux: bool,
        mounts: &MountTable,
    ) -> (r: Result<BlockDevice, SbError>)
        ensures
            r is Ok <==> head_readable(head@),
            r matches Ok(d) ==> is_node(d, path@, head@, opt_view(mountpoint), aux, table_rows(
                mounts@,
            )) && d.guid is None,
            r matches Err(e) ==> e == SbError::Utf8Decoding,
    {
        let subvol = match &mountpoint {
            Some(mp) => match mounts.mount_at(mp.as_str()) {
                Some(m) => m.option("subvol"),
                None => None,
            },
            None => None,
        };
        let (kind, uuid) = match for_reader(head) {
            Ok(sb) => match sb.uuid() {
                Ok(u) => (Some(sb.kind()), Some(u)),
                Err(e) => return Err(e),
            },
            Err(_) => (None, None),
        };
        Ok(BlockDevice {
            kind,
            mountpoint,
            path: path.to_owned(),
            children: Vec::new(),
            uuid,
            guid: None,
            aux,
            subvol,
        })
    }

    fn local_fragment(&self) -> (r: Vec<char>)
        ensures
            r@ == local_fragment(*self),
    {
        proof {
            reveal_strlit("root=UUID=");
            reveal_strlit(" rootfsflags=subvol=");
            reveal_strlit("rd.luks.uuid=");
            reveal_strlit("root=PARTUUID=");
            reveal_strlit("root=");
        }
        match self.kind {
            Some(Kind::Btrfs) => match &self.uuid {
                Some(u) => match &self.subvol {
                    Some(s) => {
                        let mut r = cat("root=UUID=", u.as_str());
                        let tail = cat(" rootfsflags=subvol=", s.as_str());
                        append_chars(&mut r, &tail);
                        r
                    },
                    None => cat("root=UUID=", u.as_str()),
                },
                None => Vec::new(),
            },
            Some(Kind::LUKS2) => match &self.uuid {
                Some(u) => cat("rd.luks.uuid=", u.as_str()),
                None => Vec::new(),
            },
            Some(_) => match &self.guid {
                Some(g) => cat("root=PARTUUID=", g.as_str()),
                None => match &self.uuid {
                    Some(u) => cat("root=UUID=", u.as_str()),
                    None => Vec::new(),
                },
            },
            None => if self.aux {
                Vec::new()
            } else {
                cat("root=", self.path.as_str())
            },
        }
    }

    /// The `root=` style kernel command line that locates this device.
    pub fn cmd_line(&self) -> (r: String)
        ensures
            r@ == cmd_line_of(*self),
        decreases self,
    {
        let mut pieces: Vec<Vec<char>> = Vec::new();
        pieces.push(self.local_fragment());
        let mut i: usize = 0;
        while i < self.children.len()
            invariant
                i <= self.children@.len(),
                views(pieces@) == seq![local_fragment(*self)] + child_lines(*self, i as int),
            decreases self.children@.len() - i,
        {
            let c = self.children[i].cmd_line();
            let ghost prev = pieces@;
            let cc = chars_of(c.as_str());
            pieces.push(cc);
            assert(views(pieces@) =~= views(prev).push(c@));
            assert(child_lines(*self, i + 1) == child_lines(*self, i as int).push(
                cmd_line_of(self.children@[i as int]),
            ));
            assert(views(pieces@) =~= seq![local_fragment(*self)] + child_lines(*self, i + 1));
            i = i + 1;
        }
        let mut sep: Vec<char> = Vec::new();
        sep.push(' ');
        let line = join_chars(&pieces, &sep);
        let words = fields_of(&line);
        let norm = join_chars(&words, &sep);
        string_from(norm.as_slice())
    }
}

} // verus!

verus! {

impl Builder {
    /// A builder for the running system: `/sys`, `/dev` and `/proc`.
    pub fn new() -> (r: Builder)
        ensures
            r.sysfs@ == "/sys"@,
            r.devfs@ == "/dev"@,
            r.procfs@ == "/proc"@,
    {
        proof {
            reveal_strlit("/sys");
            reveal_strlit("/dev");
            reveal_strlit("/proc");
        }
        Builder { sysfs: "/sys".to_owned(), devfs: "/dev".to_owned(), procfs: "/proc".to_owned() }
    }

    /// The sysfs directory to use.
    pub fn with_sysfs(self, sysfs: String) -> (r: Self)
        ensures
            r.sysfs == sysfs,
            r.devfs == self.devfs,
            r.procfs == self.procfs,
    {
        Self { sysfs, ..self }
    }

    /// The devfs directory to use.
    pub fn with_devfs(self, devfs: String) -> (r: Self)
        ensures
            r.devfs == devfs,
            r.sysfs == self.sysfs,
            r.procfs == self.procfs,
    {
        Self { devfs, ..self }
    }

    /// The procfs directory to use.
    pub fn with_procfs(self, procfs: String) -> (r: Self)
        ensures
            r.procfs == procfs,
            r.sysfs == self.sysfs,
            r.devfs == self.devfs,
    {
        Self { procfs, ..self }
    }
}

/// The name of the disk holding a block device, given the canonical sysfs
/// path of the device.
pub fn parent_disk_name(sysfs_path: &str) -> (r: Option<String>)
    ensures
        opt_view(r) == parent_disk(sysfs_path@),
{
    let dir = parent(sysfs_path);
    let name = file_name(dir.as_str());
    let nc = chars_of(name.as_str());
    let block = chars_of("block");
    if chars_eq(&nc, &block) {
        None
    } else {
        Some(name)
    }
}

impl Probe {
    /// A probe over the given locations and mount table.
    pub fn new(sysfs: String, devfs: String, procfs: String, mounts: MountTable) -> (r: Probe)
        ensures
            r.sysfs == sysfs,
            r.devfs == devfs,
            r.procfs == procfs,
            r.mounts@ == mounts@,
    {
        Probe { sysfs, devfs, procfs, mounts }
    }

    /// Assembles the device tree of the root filesystem mounted at `path`
    /// from `device`. `chain` lists the devices backing `device`, depth first;
    /// `heads[k]` is a prefix of the contents of the `k`-th device of
    /// `device` followed by `chain`; `guid` is the GPT partition GUID of
    /// `device`, if any.
    pub fn get_rootfs_device(
        &self,
        path: &str,
        device: &str,
        chain: &Vec<String>,
        heads: &Vec<Vec<u8>>,
        guid: Option<String>,
    ) -> (r: Result<BlockDevice, SbError>)
        requires
            heads@.len() == chain@.len() + 1,
        ensures
            r is Ok <==> forall|k: int|
                0 <= k < heads@.len() ==> head_readable(#[trigger] heads@[k]@),
            r matches Err(e) ==> e == SbError::Utf8Decoding,
            r matches Ok(t) ==> is_rootfs_tree(
                t,
                path@,
                device@,
                chain@.map_values(|c: String| c@),
                heads@.map_values(|h: Vec<u8>| h@),
                opt_view(guid),
                table_rows(self.mounts@),
            ),
    {
        let ghost all = seq![device@] + chain@.map_values(|c: String| c@);
        let ghost hs = heads@.map_values(|h: Vec<u8>| h@);
        let ghost rows = table_rows(self.mounts@);
        let n = chain.len();
        let tip_path: &str = if n == 0 {
            device
        } else {
            chain[n - 1].as_str()
        };
        assert(tip_path@ == all[n as int]);
        let mut block = match BlockDevice::new(tip_path, heads[n].as_slice(), None, true, &self.mounts) {
            Ok(b) => b,
            Err(e) => return Err(e),
        };
        let dev = chars_of(device);
        let mut children: Vec<BlockDevice> = Vec::new();
        let mut k: usize = 0;
        while k < n
            invariant
                k <= n == chain@.len(),
                heads@.len() == n + 1,
                all == seq![device@] + chain@.map_values(|c: String| c@),
                hs == heads@.map_values(|h: Vec<u8>| h@),
                rows == table_rows(self.mounts@),
                dev@ == device@,
                children@.len() == k,
                forall|j: int| 0 <= j < k ==> head_readable(#[trigger] heads@[j]@),
                forall|j: int|
                    0 <= j < k ==> is_node(
                        #[trigger] children@[j],
                        all[j],
                        hs[j],
                        if all[j] == device@ {
                            Some(path@)
                        } else {
                            None
                        },
                        all[j] != device@,
                        rows,
                    ),
            decreases n - k,
        {
            let name: &str = if k == 0 {
                device
            } else {
                chain[k - 1].as_str()
            };
            assert(name@ == all[k as int]);
            assert(hs[k as int] == heads@[k as int]@);
            let nc = chars_of(name);
            let made = if chars_eq(&nc, &dev) {
                BlockDevice::new(name, heads[k].as_slice(), Some(path.to_owned()), false, &self.mounts)
            } else {
                BlockDevice::new(name, heads[k].as_slice(), None, true, &self.mounts)
            };
            let child = match made {
                Ok(c) => c,
                Err(e) => return Err(e),
            };
            children.push(child);
            k = k + 1;
        }
        block.children = children;
        block.guid = guid;
        assert(hs[n as int] == heads@[n as int]@);
        assert forall|j: int| 0 <= j < heads@.len() implies head_readable(#[trigger] heads@[j]@) by {
            if j < n {
            }
        }
        Ok(block)
    }
}

} // verus!
