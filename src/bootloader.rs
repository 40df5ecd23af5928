//! systemd-boot installation decisions: where kernels go, what each loader
//! entry says, and which installed files have become stale.

use crate::entry::{asset_name, cmdline_views, kernel_name, schema_prefix, CmdlineEntry, Entry};
use crate::bootenv::Firmware;
use crate::kernel::{AuxilliaryFile, Kernel, Schema};
use crate::path::{base_name, file_name, join, join_path};
use crate::text::{chars_eq, chars_of, has_prefix, starts_with, string_views};
use vstd::prelude::*;
use vstd::string::StringExecFns;

verus! {

/// Bootloader errors
#[derive(Debug, Clone, PartialEq, Eq)]
pub enum Error {
    /// A required bootloader file is missing
    MissingFile(String),
    /// A required partition is not mounted
    MissingMount(String),
}

/// Mountpoints of the boot partitions.
pub struct Mounts {
    pub xbootldr: Option<String>,
    pub esp: Option<String>,
}

/// The result of installing one entry.
pub struct InstallResult {
    /// The `.conf` file that was written (absolute)
    pub loader_conf: String,
    /// The kernel directory that was installed into (absolute)
    pub kernel_dir: String,
}

/// systemd-boot management for one schema.
pub struct Loader<'a> {
    pub schema: &'a Schema,
    pub assets: Vec<String>,
    pub mounts: Mounts,
    pub kernel_dir: String,
    pub boot_root: String,
}

/// The bootloader in use; only systemd-boot is supported.
pub enum Bootloader<'a> {
    Systemd(Loader<'a>),
}

impl<'a> Bootloader<'a> {
    /// The bootloader for the firmware: systemd-boot under UEFI; BIOS
    /// installation is not supported.
    pub fn new(
        schema: &'a Schema,
        assets: Vec<String>,
        mounts: Mounts,
        kernel_dir: String,
        firmware: Firmware,
    ) -> (r: Result<Self, crate::Error>)
        ensures
            firmware == Firmware::BIOS ==> r == Err::<Self, crate::Error>(crate::Error::Unsupported),
            firmware == Firmware::UEFI ==> match r {
                Ok(Bootloader::Systemd(l)) => boot_root_of(mounts.xbootldr, mounts.esp) == Some(
                    l.boot_root@,
                ) && l.schema == schema && l.kernel_dir == kernel_dir && l.assets == assets,
                Err(e) => boot_root_of(mounts.xbootldr, mounts.esp) is None && (e matches crate::Error::Bootloader(
                    Error::MissingMount(m),
                ) && m@ == "ESP (/efi)"@),
            },
    {
        match firmware {
            Firmware::UEFI => match Loader::new(schema, assets, mounts, kernel_dir) {
                Ok(l) => Ok(Bootloader::Systemd(l)),
                Err(e) => Err(crate::Error::Bootloader(e)),
            },
            Firmware::BIOS => Err(crate::Error::Unsupported),
        }
    }
}

/// `$BOOT`: the XBOOTLDR mountpoint if there is one, else the ESP's.
pub open spec fn boot_root_of(xbootldr: Option<String>, esp: Option<String>) -> Option<Seq<char>> {
    match xbootldr {
        Some(x) => Some(x@),
        None => match esp {
            Some(e) => Some(e@),
            None => None,
        },
    }
}

/// Chooses `$BOOT`.
pub fn boot_root(mounts: &Mounts) -> (r: Result<String, Error>)
    ensures
        match r {
            Ok(s) => boot_root_of(mounts.xbootldr, mounts.esp) == Some(s@),
            Err(e) => boot_root_of(mounts.xbootldr, mounts.esp) is None && (e matches Error::MissingMount(
                m,
            ) && m@ == "ESP (/efi)"@),
        },
{
    if let Some(x) = &mounts.xbootldr {
        Ok(x.clone())
    } else if let Some(e) = &mounts.esp {
        Ok(e.clone())
    } else {
        proof {
            reveal_strlit("ESP (/efi)");
        }
        Err(Error::MissingMount("ESP (/efi)".to_owned()))
    }
}

/// The name of the vendor directory under `EFI`: the legacy namespace, or the OS id.
pub open spec fn vendor_of(schema: Schema) -> Seq<char> {
    match schema {
        Schema::Legacy { namespace, .. } => namespace@,
        Schema::Blsforme { os_release } => os_release.id@,
    }
}

pub fn vendor_id(schema: &Schema) -> (r: String)
    ensures
        r@ == vendor_of(*schema),
{
    match schema {
        Schema::Legacy { namespace, .. } => namespace.clone(),
        Schema::Blsforme { os_release } => os_release.id.clone(),
    }
}

/// The bootloader image shipped for x86_64.
pub open spec fn loader_image() -> Seq<char> {
    "systemd-bootx64.efi"@
}

/// Index of the first asset named `systemd-bootx64.efi`.
pub open spec fn loader_asset(assets: Seq<Seq<char>>) -> Option<int> {
    if exists|i: int| 0 <= i < assets.len() && base_name(#[trigger] assets[i]) == loader_image() {
        Some(
            choose|i: int|
                0 <= i < assets.len() && base_name(#[trigger] assets[i]) == loader_image()
                    && forall|j: int| 0 <= j < i ==> base_name(assets[j]) != loader_image(),
        )
    } else {
        None
    }
}

/// Finds the systemd-boot image among the bootloader assets.
pub fn find_loader_asset(assets: &Vec<String>) -> (r: Result<String, Error>)
    ensures
        match r {
            Ok(s) => loader_asset(string_views(assets@)) matches Some(i) && s@ == string_views(
                assets@,
            )[i],
            Err(e) => loader_asset(string_views(assets@)) is None && (e matches Error::MissingFile(
                m,
            ) && m@ == loader_image()),
        },
{
    let ghost av = string_views(assets@);
    proof {
        reveal_strlit("systemd-bootx64.efi");
    }
    let want = chars_of("systemd-bootx64.efi");
    let mut i: usize = 0;
    while i < assets.len()
        invariant
            i <= assets@.len(),
            av == string_views(assets@),
            want@ == loader_image(),
            forall|j: int| 0 <= j < i ==> base_name(#[trigger] av[j]) != loader_image(),
        decreases assets@.len() - i,
    {
        assert(av[i as int] == assets@[i as int]@);
        let name = chars_of(file_name(assets[i].as_str()).as_str());
        if chars_eq(&name, &want) {
            proof {
                assert(0 <= i < av.len() && base_name(av[i as int]) == loader_image() && forall|j: int|
                    0 <= j < i ==> base_name(av[j]) != loader_image());
                let k = choose|k: int|
                    0 <= k < av.len() && base_name(#[trigger] av[k]) == loader_image() && forall|j: int|
                        0 <= j < k ==> base_name(av[j]) != loader_image();
                if k < i {
                } else if k > i {
                    assert(base_name(av[i as int]) != loader_image());
                }
            }
            return Ok(assets[i].clone());
        }
        i = i + 1;
    }
    Err(Error::MissingFile("systemd-bootx64.efi".to_owned()))
}

/// The snippets of an entry that are not excluded, in order.
pub open spec fn kept_snippets(
    cmdlines: Seq<(Seq<char>, Seq<char>)>,
    excluded: Seq<Seq<char>>,
) -> Seq<Seq<char>>
    decreases cmdlines.len(),
{
    if cmdlines.len() == 0 {
        seq![]
    } else if excluded.contains(cmdlines.last().0) {
        kept_snippets(cmdlines.drop_last(), excluded)
    } else {
        kept_snippets(cmdlines.drop_last(), excluded).push(cmdlines.last().1)
    }
}

/// A snippet whose name is excluded contributes nothing: dropping it from
/// an entry's snippets leaves the entry's command line unchanged.
pub proof fn lemma_excluded_snippet_ignored(
    base: Seq<Seq<char>>,
    cmdlines: Seq<(Seq<char>, Seq<char>)>,
    excluded: Seq<Seq<char>>,
    k: int,
)
    requires
        0 <= k < cmdlines.len(),
        excluded.contains(cmdlines[k].0),
    ensures
        entry_cmdline_of(base, cmdlines, excluded) == entry_cmdline_of(
            base,
            cmdlines.remove(k),
            excluded,
        ),
{
    lemma_kept_without(cmdlines, excluded, k);
}

proof fn lemma_kept_without(cmdlines: Seq<(Seq<char>, Seq<char>)>, excluded: Seq<Seq<char>>, k: int)
    requires
        0 <= k < cmdlines.len(),
        excluded.contains(cmdlines[k].0),
    ensures
        kept_snippets(cmdlines, excluded) == kept_snippets(cmdlines.remove(k), excluded),
    decreases cmdlines.len(),
{
    let r = cmdlines.remove(k);
    if k == cmdlines.len() - 1 {
        assert(r == cmdlines.drop_last());
    } else {
        lemma_kept_without(cmdlines.drop_last(), excluded, k);
        assert(r.drop_last() == cmdlines.drop_last().remove(k));
        assert(r.last() == cmdlines.last());
    }
}

/// The pieces joined with single spaces.
pub open spec fn spaced(parts: Seq<Seq<char>>) -> Seq<char> {
    crate::text::join(parts, seq![' '])
}

/// An entry's command line: the base tokens, then its snippets whose names
/// are not excluded, joined with single spaces.
pub open spec fn entry_cmdline_of(
    base: Seq<Seq<char>>,
    cmdlines: Seq<(Seq<char>, Seq<char>)>,
    excluded: Seq<Seq<char>>,
) -> Seq<char> {
    spaced(base + kept_snippets(cmdlines, excluded))
}

fn contains_name(names: &Vec<String>, n: &String) -> (r: bool)
    ensures
        r == string_views(names@).contains(n@),
{
    let mut i: usize = 0;
    while i < names.len()
        invariant
            i <= names@.len(),
            forall|j: int| 0 <= j < i ==> names@[j]@ != n@,
        decreases names@.len() - i,
    {
        if names[i] == *n {
            assert(string_views(names@)[i as int] == n@);
            return true;
        }
        i = i + 1;
    }
    proof {
        if string_views(names@).contains(n@) {
            let j = choose|j: int| 0 <= j < string_views(names@).len() && string_views(names@)[j] == n@;
            assert(names@[j]@ == n@);
        }
    }
    false
}

fn join_spaced(parts: &Vec<String>) -> (r: String)
    ensures
        r@ == spaced(string_views(parts@)),
{
    let mut r = String::new();
    let mut i: usize = 0;
    proof {
        reveal_strlit(" ");
    }
    while i < parts.len()
        invariant
            i <= parts@.len(),
            r@ == spaced(string_views(parts@).subrange(0, i as int)),
        decreases parts@.len() - i,
    {
        proof {
            assert(string_views(parts@).subrange(0, i + 1).drop_last() == string_views(
                parts@,
            ).subrange(0, i as int));
            assert(string_views(parts@).subrange(0, i + 1).last() == parts@[i as int]@);
        }
        proof {
            reveal_strlit(" ");
            assert(" "@ =~= seq![' ']);
        }
        if i > 0 {
            r.append(" ");
        }
        r.append(parts[i].as_str());
        assert(r@ =~= spaced(string_views(parts@).subrange(0, i + 1)));
        i = i + 1;
    }
    assert(string_views(parts@).subrange(0, parts@.len() as int) == string_views(parts@));
    r
}

/// Builds the command line of an entry.
pub fn entry_cmdline(base: &Vec<String>, cmdline: &Vec<CmdlineEntry>, excluded: &Vec<String>) -> (r:
    String)
    ensures
        r@ == entry_cmdline_of(string_views(base@), cmdline_views(cmdline@), string_views(excluded@)),
{
    let mut parts: Vec<String> = Vec::new();
    let mut i: usize = 0;
    while i < base.len()
        invariant
            i <= base@.len(),
            string_views(parts@) == string_views(base@).subrange(0, i as int),
        decreases base@.len() - i,
    {
        let ghost prev = parts@;
        let b = base[i].clone();
        parts.push(b);
        assert(string_views(parts@) =~= string_views(prev).push(base@[i as int]@));
        assert(string_views(parts@) =~= string_views(base@).subrange(0, i + 1));
        i = i + 1;
    }
    assert(string_views(base@).subrange(0, base@.len() as int) == string_views(base@));
    let ghost cv = cmdline_views(cmdline@);
    let ghost ex = string_views(excluded@);
    let mut j: usize = 0;
    while j < cmdline.len()
        invariant
            j <= cmdline@.len(),
            cv == cmdline_views(cmdline@),
            ex == string_views(excluded@),
            string_views(parts@) == string_views(base@) + kept_snippets(cv.subrange(0, j as int), ex),
        decreases cmdline@.len() - j,
    {
        proof {
            assert(cv.subrange(0, j + 1).drop_last() == cv.subrange(0, j as int));
            assert(cv.subrange(0, j + 1).last() == (cmdline@[j as int].name@, cmdline@[j as int].snippet@));
        }
        if !contains_name(excluded, &cmdline[j].name) {
            let ghost prev = parts@;
            let sn = cmdline[j].snippet.clone();
            parts.push(sn);
            assert(string_views(parts@) =~= string_views(prev).push(cmdline@[j as int].snippet@));
        }
        assert(string_views(parts@) =~= string_views(base@) + kept_snippets(cv.subrange(0, j + 1), ex));
        j = j + 1;
    }
    assert(cv.subrange(0, cmdline@.len() as int) == cv);
    join_spaced(&parts)
}

/// The `initrd` lines of a stanza for the installed initrd names.
pub open spec fn initrd_lines(asset_dir: Seq<char>, names: Seq<Seq<char>>) -> Seq<char>
    decreases names.len(),
{
    if names.len() == 0 {
        seq![]
    } else {
        initrd_lines(asset_dir, names.drop_last()) + "initrd /"@ + asset_dir + seq!['/'] + names.last()
            + seq!['\n']
    }
}

/// Installed names of those initrds of the kernel that are installed.
pub open spec fn installed_initrds(schema: Schema, k: Kernel, files: Seq<AuxilliaryFile>) -> Seq<
    Seq<char>,
>
    decreases files.len(),
{
    if files.len() == 0 {
        seq![]
    } else {
        let rest = installed_initrds(schema, k, files.drop_last());
        match asset_name(schema, k, files.last()) {
            Some(n) => rest.push(n),
            None => rest,
        }
    }
}

/// The entry title: the pretty name, else the name, then the version in parentheses.
pub open spec fn title_of(schema: Schema, version: Seq<char>) -> Seq<char> {
    let o = match schema {
        Schema::Legacy { os_release, .. } => os_release,
        Schema::Blsforme { os_release } => os_release,
    };
    let name = match o.meta.pretty_name {
        Some(p) => p@,
        None => o.name@,
    };
    name + " ("@ + version + ")"@
}

/// The loader entry (stanza) for an entry whose files live in `asset_dir`
/// relative to `$BOOT`. (A kernel without an installed name is never
/// installed, so its `linux` line is never written.)
pub open spec fn stanza_of(schema: Schema, asset_dir: Seq<char>, cmdline: Seq<char>, k: Kernel) -> Seq<
    char,
> {
    "title "@ + title_of(schema, k.version@) + "\nlinux /"@ + asset_dir + seq!['/'] + match kernel_name(
        schema,
        k,
    ) {
        Some(n) => n,
        None => seq![],
    } + seq!['\n'] + initrd_lines(asset_dir, installed_initrds(schema, k, k.initrd@)) + "options "@
        + cmdline + seq!['\n']
}

/// `p` relative to `base`: what follows `base/`, or `p` itself when it is not below `base`.
pub open spec fn relative_to(p: Seq<char>, base: Seq<char>) -> Seq<char> {
    let pre = if base.len() > 0 && base.last() == '/' {
        base
    } else {
        base + seq!['/']
    };
    if starts_with(p, pre) {
        p.subrange(pre.len() as int, p.len() as int)
    } else {
        p
    }
}

/// `p` relative to `base`.
pub fn relative_path(p: &str, base: &str) -> (r: String)
    ensures
        r@ == relative_to(p@, base@),
{
    let pc = chars_of(p);
    let mut pre = chars_of(base);
    let ghost want = if base@.len() > 0 && base@.last() == '/' {
        base@
    } else {
        base@ + seq!['/']
    };
    if !(pre.len() > 0 && pre[pre.len() - 1] == '/') {
        pre.push('/');
    }
    assert(pre@ =~= want);
    if has_prefix(&pc, &pre) {
        let rest = crate::text::copy_range(&pc, pre.len(), pc.len());
        crate::text::string_from(rest.as_slice())
    } else {
        p.to_owned()
    }
}

impl<'a> Loader<'a> {
    /// A loader installing below `kernel_dir`, the vendor directory that the
    /// caller resolved under `$BOOT/EFI`.
    pub fn new(schema: &'a Schema, assets: Vec<String>, mounts: Mounts, kernel_dir: String) -> (r:
        Result<Self, Error>)
        ensures
            match r {
                Ok(l) => boot_root_of(mounts.xbootldr, mounts.esp) == Some(l.boot_root@) && l.schema
                    == schema && l.kernel_dir == kernel_dir && l.assets == assets,
                Err(e) => boot_root_of(mounts.xbootldr, mounts.esp) is None && (e matches Error::MissingMount(
                    m,
                ) && m@ == "ESP (/efi)"@),
            },
    {
        let root = boot_root(&mounts);
        match root {
            Ok(boot_root) => Ok(Loader { schema, assets, mounts, kernel_dir, boot_root }),
            Err(e) => Err(e),
        }
    }

    /// Renders the loader entry of `entry`, whose files live in `asset_dir`.
    pub fn generate_entry(&self, asset_dir: &str, cmdline: &str, entry: &Entry) -> (r: String)
        ensures
            r@ == stanza_of(*self.schema, asset_dir@, cmdline@, *entry.kernel),
    {
        let schema = self.schema;
        let o = schema.os_release();
        proof {
            reveal_strlit("title ");
            reveal_strlit(" (");
            reveal_strlit(")");
            reveal_strlit("\nlinux /");
            reveal_strlit("/");
            reveal_strlit("\n");
            reveal_strlit("initrd /");
            reveal_strlit("options ");
        }
        let mut r = "title ".to_owned();
        match &o.meta.pretty_name {
            Some(p) => r.append(p.as_str()),
            None => r.append(o.name.as_str()),
        }
        r.append(" (");
        r.append(entry.kernel.version.as_str());
        r.append(")");
        r.append("\nlinux /");
        r.append(asset_dir);
        r.append("/");
        let kname = entry.installed_kernel_name(schema);
        match &kname {
            Some(k) => r.append(k.as_str()),
            None => {},
        }
        r.append("\n");
        let ghost head = r@;
        let files = &entry.kernel.initrd;
        let mut i: usize = 0;
        while i < files.len()
            invariant
                i <= files@.len(),
                files == &entry.kernel.initrd,
                r@ == head + initrd_lines(
                    asset_dir@,
                    installed_initrds(*schema, *entry.kernel, files@.subrange(0, i as int)),
                ),
            decreases files@.len() - i,
        {
            proof {
                assert(files@.subrange(0, i + 1).drop_last() == files@.subrange(0, i as int));
            }
            proof {
                reveal_strlit("initrd /");
                reveal_strlit("/");
                reveal_strlit("\n");
                assert("/"@ =~= seq!['/']);
                assert("\n"@ =~= seq!['\n']);
                assert(files@.subrange(0, i + 1).last() == files@[i as int]);
            }
            let ghost names = installed_initrds(*schema, *entry.kernel, files@.subrange(0, i as int));
            match entry.installed_asset_name(schema, &files[i]) {
                Some(n) => {
                    r.append("initrd /");
                    r.append(asset_dir);
                    r.append("/");
                    r.append(n.as_str());
                    r.append("\n");
                    assert(installed_initrds(*schema, *entry.kernel, files@.subrange(0, i + 1))
                        == names.push(n@));
                    assert(names.push(n@).drop_last() == names);
                    assert(r@ =~= head + initrd_lines(asset_dir@, names.push(n@)));
                },
                None => {},
            }
            i = i + 1;
        }
        assert(files@.subrange(0, files@.len() as int) == files@);
        r.append("options ");
        r.append(cmdline);
        r.append("\n");
        r
    }
}

/// The paths of `candidates` that are not in `keep`, in order.
pub open spec fn stale_of(candidates: Seq<Seq<char>>, keep: Seq<Seq<char>>) -> Seq<Seq<char>>
    decreases candidates.len(),
{
    if candidates.len() == 0 {
        seq![]
    } else if keep.contains(candidates.last()) {
        stale_of(candidates.drop_last(), keep)
    } else {
        stale_of(candidates.drop_last(), keep).push(candidates.last())
    }
}

/// The installed files that no entry of this sync produced.
pub fn stale(candidates: &Vec<String>, keep: &Vec<String>) -> (r: Vec<String>)
    ensures
        string_views(r@) == stale_of(string_views(candidates@), string_views(keep@)),
{
    let ghost cv = string_views(candidates@);
    let mut r: Vec<String> = Vec::new();
    let mut i: usize = 0;
    while i < candidates.len()
        invariant
            i <= candidates@.len(),
            cv == string_views(candidates@),
            string_views(r@) == stale_of(cv.subrange(0, i as int), string_views(keep@)),
        decreases candidates@.len() - i,
    {
        proof {
            assert(cv.subrange(0, i + 1).drop_last() == cv.subrange(0, i as int));
            assert(cv.subrange(0, i + 1).last() == candidates@[i as int]@);
        }
        if !contains_name(keep, &candidates[i]) {
            r.push(candidates[i].clone());
        }
        assert(string_views(r@) =~= stale_of(cv.subrange(0, i + 1), string_views(keep@)));
        i = i + 1;
    }
    assert(cv.subrange(0, candidates@.len() as int) == cv);
    r
}

/// Reconciliation removes exactly the installed paths that the sync did not
/// produce: a path is removed if and only if it was present and not kept.
pub proof fn lemma_reconcile(candidates: Seq<Seq<char>>, keep: Seq<Seq<char>>, p: Seq<char>)
    ensures
        stale_of(candidates, keep).contains(p) <==> (candidates.contains(p) && !keep.contains(p)),
    decreases candidates.len(),
{
    if candidates.len() > 0 {
        lemma_reconcile(candidates.drop_last(), keep, p);
        let c = candidates.drop_last();
        assert(candidates == c.push(candidates.last()));
        if candidates.contains(p) && !c.contains(p) {
            assert(candidates.last() == p) by {
                let j = choose|j: int| 0 <= j < candidates.len() && candidates[j] == p;
                if j < c.len() {
                    assert(c[j] == p);
                }
            }
        }
        if c.contains(p) {
            let j = choose|j: int| 0 <= j < c.len() && c[j] == p;
            assert(candidates[j] == p);
        }
        let s = stale_of(c, keep);
        if !keep.contains(candidates.last()) {
            assert(stale_of(candidates, keep) == s.push(candidates.last()));
            if s.push(candidates.last()).contains(p) && !s.contains(p) {
                let j = choose|j: int| 0 <= j < s.len() + 1 && s.push(candidates.last())[j] == p;
                if j < s.len() {
                    assert(s[j] == p);
                }
            }
            if s.contains(p) {
                let j = choose|j: int| 0 <= j < s.len() && s[j] == p;
                assert(s.push(candidates.last())[j] == p);
            }
            assert(s.push(candidates.last())[s.len() as int] == candidates.last());
        }
    }
}

/// Loader config names of this schema: those starting with its prefix.
pub open spec fn own_configs(names: Seq<Seq<char>>, prefix: Seq<char>) -> Seq<Seq<char>>
    decreases names.len(),
{
    if names.len() == 0 {
        seq![]
    } else if starts_with(names.last(), prefix) {
        own_configs(names.drop_last(), prefix).push(names.last())
    } else {
        own_configs(names.drop_last(), prefix)
    }
}

/// The entries of `loader/entries` that belong to the schema.
pub fn schema_configs(names: &Vec<String>, schema: &Schema) -> (r: Vec<String>)
    ensures
        string_views(r@) == own_configs(string_views(names@), schema_prefix(*schema)),
{
    let ghost nv = string_views(names@);
    let prefix = match schema {
        Schema::Legacy { os_release, .. } => chars_of(os_release.name.as_str()),
        Schema::Blsforme { os_release } => chars_of(os_release.id.as_str()),
    };
    let mut r: Vec<String> = Vec::new();
    let mut i: usize = 0;
    while i < names.len()
        invariant
            i <= names@.len(),
            nv == string_views(names@),
            prefix@ == schema_prefix(*schema),
            string_views(r@) == own_configs(nv.subrange(0, i as int), prefix@),
        decreases names@.len() - i,
    {
        proof {
            assert(nv.subrange(0, i + 1).drop_last() == nv.subrange(0, i as int));
            assert(nv.subrange(0, i + 1).last() == names@[i as int]@);
        }
        let n = chars_of(names[i].as_str());
        if has_prefix(&n, &prefix) {
            r.push(names[i].clone());
        }
        assert(string_views(r@) =~= own_configs(nv.subrange(0, i + 1), prefix@));
        i = i + 1;
    }
    assert(nv.subrange(0, names@.len() as int) == nv);
    r
}


pub open spec fn written_confs(installed: Seq<InstallResult>) -> Seq<Seq<char>> {
    installed.map_values(|i: InstallResult| i.loader_conf@)
}

pub open spec fn written_dirs(installed: Seq<InstallResult>) -> Seq<Seq<char>> {
    installed.map_values(|i: InstallResult| i.kernel_dir@)
}

/// The loader entries of the schema in `dir`, as paths.
pub open spec fn config_paths(dir: Seq<char>, names: Seq<Seq<char>>, prefix: Seq<char>) -> Seq<
    Seq<char>,
> {
    own_configs(names, prefix).map_values(|n: Seq<char>| join(dir, n))
}

/// What a sync removes after installing its entries: the loader entries of
/// the schema in `loader_dir` (listed as `names`) that no entry wrote, and
/// the kernel directories (listed as `kernel_dirs`) that no entry installed
/// into. Returns the entry files, then the directories.
pub fn reconcile(
    schema: &Schema,
    loader_dir: &str,
    names: &Vec<String>,
    kernel_dirs: &Vec<String>,
    installed: &Vec<InstallResult>,
) -> (r: (Vec<String>, Vec<String>))
    ensures
        string_views(r.0@) == stale_of(
            config_paths(loader_dir@, string_views(names@), schema_prefix(*schema)),
            written_confs(installed@),
        ),
        string_views(r.1@) == stale_of(string_views(kernel_dirs@), written_dirs(installed@)),
{
    let own = schema_configs(names, schema);
    let mut confs: Vec<String> = Vec::new();
    let mut i: usize = 0;
    while i < own.len()
        invariant
            i <= own@.len(),
            string_views(confs@) == string_views(own@).subrange(0, i as int).map_values(
                |n: Seq<char>| join(loader_dir@, n),
            ),
        decreases own@.len() - i,
    {
        let ghost prev = confs@;
        let path = join_path(loader_dir, own[i].as_str());
        confs.push(path);
        assert(string_views(confs@) =~= string_views(prev).push(join(loader_dir@, own@[i as int]@)));
        assert(string_views(own@).subrange(0, i + 1) =~= string_views(own@).subrange(0, i as int).push(
            own@[i as int]@,
        ));
        assert(string_views(confs@) =~= string_views(own@).subrange(0, i + 1).map_values(
            |n: Seq<char>| join(loader_dir@, n),
        ));
        i = i + 1;
    }
    assert(string_views(own@).subrange(0, own@.len() as int) == string_views(own@));
    let mut written: Vec<String> = Vec::new();
    let mut trees: Vec<String> = Vec::new();
    let mut j: usize = 0;
    while j < installed.len()
        invariant
            j <= installed@.len(),
            string_views(written@) == written_confs(installed@.subrange(0, j as int)),
            string_views(trees@) == written_dirs(installed@.subrange(0, j as int)),
        decreases installed@.len() - j,
    {
        let ghost pw = written@;
        let ghost pt = trees@;
        let c = installed[j].loader_conf.clone();
        let d = installed[j].kernel_dir.clone();
        written.push(c);
        trees.push(d);
        assert(string_views(written@) =~= string_views(pw).push(installed@[j as int].loader_conf@));
        assert(string_views(trees@) =~= string_views(pt).push(installed@[j as int].kernel_dir@));
        assert(installed@.subrange(0, j + 1) =~= installed@.subrange(0, j as int).push(
            installed@[j as int],
        ));
        assert(string_views(written@) =~= written_confs(installed@.subrange(0, j + 1)));
        assert(string_views(trees@) =~= written_dirs(installed@.subrange(0, j + 1)));
        j = j + 1;
    }
    assert(installed@.subrange(0, installed@.len() as int) == installed@);
    (stale(&confs, &written), stale(kernel_dirs, &trees))
}

/// A sync removes exactly what it listed and did not write: a loader entry
/// of the schema is removed if and only if no installed entry wrote it, and
/// a kernel directory if and only if no entry was installed into it.
pub proof fn lemma_sync_removes_only_stale(
    loader_dir: Seq<char>,
    names: Seq<Seq<char>>,
    prefix: Seq<char>,
    kernel_dirs: Seq<Seq<char>>,
    installed: Seq<InstallResult>,
    p: Seq<char>,
)
    ensures
        stale_of(config_paths(loader_dir, names, prefix), written_confs(installed)).contains(p) <==> (
        config_paths(loader_dir, names, prefix).contains(p) && !written_confs(installed).contains(p)),
        stale_of(kernel_dirs, written_dirs(installed)).contains(p) <==> (kernel_dirs.contains(p)
            && !written_dirs(installed).contains(p)),
{
    lemma_reconcile(config_paths(loader_dir, names, prefix), written_confs(installed), p);
    lemma_reconcile(kernel_dirs, written_dirs(installed), p);
}

} // verus!
