//! Boot entries: a kernel with its command line snippets and an optional
//! state id, and the names under which its files are installed.

use crate::kernel::{AuxilliaryFile, AuxilliaryKind, Kernel, Schema};
use crate::path::{file_name_of, path_file_name};
use crate::text::{decimal, int_text};
use vstd::prelude::*;
use vstd::string::StringExecFns;

verus! {

/// A cmdline snippet, such as a file of `$sysroot/usr/lib/kernel/cmdline.d`
pub struct CmdlineEntry {
    /// Name of the entry, i.e. `00-quiet.cmdline`
    pub name: String,
    /// Text contents of this cmdline entry
    pub snippet: String,
}

/// An entry corresponds to a single kernel, and may have supplemental cmdlines
pub struct Entry<'a> {
    pub kernel: &'a Kernel,
    pub sysroot: Option<String>,
    pub cmdline: Vec<CmdlineEntry>,
    /// Unique state ID for this entry
    pub state_id: Option<i32>,
}

/// The prefix of entry ids and loader config names under a schema: the OS
/// name for the legacy schema, the OS id otherwise.
pub open spec fn schema_prefix(schema: Schema) -> Seq<char> {
    match schema {
        Schema::Legacy { os_release, .. } => os_release.name@,
        Schema::Blsforme { os_release } => os_release.id@,
    }
}

/// `<prefix>-<version>`, followed by `-<state id>` when there is one.
pub open spec fn entry_id(schema: Schema, version: Seq<char>, state_id: Option<i32>) -> Seq<char> {
    let base = schema_prefix(schema) + seq!['-'] + version;
    match state_id {
        Some(s) => base + seq!['-'] + decimal(s as int),
        None => base,
    }
}

/// The installed name of the kernel image; a legacy image path without a
/// final file name has none.
pub open spec fn kernel_name(schema: Schema, k: Kernel) -> Option<Seq<char>> {
    match schema {
        Schema::Legacy { .. } => match path_file_name(k.image@) {
            Some(f) => Some("kernel-"@ + f),
            None => None,
        },
        Schema::Blsforme { .. } => Some(k.version@ + "/vmlinuz"@),
    }
}

/// The installed name of an auxiliary file; only initrds whose path has a
/// final file name are installed.
pub open spec fn asset_name(schema: Schema, k: Kernel, a: AuxilliaryFile) -> Option<Seq<char>> {
    if a.kind != AuxilliaryKind::InitRD {
        None
    } else {
        match path_file_name(a.path@) {
            None => None,
            Some(f) => match schema {
                Schema::Legacy { .. } => Some("initrd-"@ + f),
                Schema::Blsforme { .. } => Some(k.version@ + seq!['/'] + f),
            },
        }
    }
}

pub open spec fn cmdline_views(c: Seq<CmdlineEntry>) -> Seq<(Seq<char>, Seq<char>)> {
    c.map_values(|e: CmdlineEntry| (e.name@, e.snippet@))
}

fn prefix_of(schema: &Schema) -> (r: &String)
    ensures
        r@ == schema_prefix(*schema),
{
    match schema {
        Schema::Legacy { os_release, .. } => &os_release.name,
        Schema::Blsforme { os_release } => &os_release.id,
    }
}

impl<'a> Entry<'a> {
    /// New entry for the given kernel
    pub fn new(kernel: &'a Kernel) -> (r: Self)
        ensures
            r.kernel == kernel,
            r.sysroot is None,
            r.cmdline@.len() == 0,
            r.state_id is None,
    {
        Self { kernel, cmdline: Vec::new(), sysroot: None, state_id: None }
    }

    /// With the given system root, against which local snippets are resolved
    pub fn with_sysroot(self, sysroot: String) -> (r: Self)
        ensures
            r.sysroot == Some(sysroot),
            r.kernel == self.kernel,
            r.cmdline == self.cmdline,
            r.state_id == self.state_id,
    {
        Self { sysroot: Some(sysroot), ..self }
    }

    /// With the given state ID
    pub fn with_state_id(self, state_id: i32) -> (r: Self)
        ensures
            r.state_id == Some(state_id),
            r.kernel == self.kernel,
            r.cmdline == self.cmdline,
            r.sysroot == self.sysroot,
    {
        Self { state_id: Some(state_id), ..self }
    }

    /// With the given cmdline entry appended
    pub fn with_cmdline(self, entry: CmdlineEntry) -> (r: Self)
        ensures
            r.cmdline@ == self.cmdline@.push(entry),
            r.kernel == self.kernel,
            r.sysroot == self.sysroot,
            r.state_id == self.state_id,
    {
        let mut cmdline = self.cmdline;
        cmdline.push(entry);
        Self { cmdline, ..self }
    }

    /// Return an entry ID, suitable for `.conf` generation
    pub fn id(&self, schema: &Schema) -> (r: String)
        ensures
            r@ == entry_id(*schema, self.kernel.version@, self.state_id),
    {
        let mut r = prefix_of(schema).clone();
        r.append("-");
        r.append(self.kernel.version.as_str());
        proof {
            reveal_strlit("-");
        }
        match self.state_id {
            Some(s) => {
                r.append("-");
                let t = int_text(s);
                r.append(t.as_str());
            },
            None => {},
        }
        r
    }

    /// Generate an installed name for the kernel, used by bootloaders
    pub fn installed_kernel_name(&self, schema: &Schema) -> (r: Option<String>)
        ensures
            match r {
                Some(n) => kernel_name(*schema, *self.kernel) == Some(n@),
                None => kernel_name(*schema, *self.kernel) is None,
            },
    {
        proof {
            reveal_strlit("kernel-");
            reveal_strlit("/vmlinuz");
        }
        match schema {
            Schema::Legacy { .. } => match file_name_of(self.kernel.image.as_str()) {
                Some(f) => Some("kernel-".to_owned().concat(f.as_str())),
                None => None,
            },
            Schema::Blsforme { .. } => Some(self.kernel.version.clone().concat("/vmlinuz")),
        }
    }

    /// Generate installed asset (aux) name, used by bootloaders
    pub fn installed_asset_name(&self, schema: &Schema, asset: &AuxilliaryFile) -> (r: Option<String>)
        ensures
            match r {
                Some(n) => asset_name(*schema, *self.kernel, *asset) == Some(n@),
                None => asset_name(*schema, *self.kernel, *asset) is None,
            },
    {
        proof {
            reveal_strlit("initrd-");
            reveal_strlit("/");
        }
        if asset.kind != AuxilliaryKind::InitRD {
            return None;
        }
        let f = match file_name_of(asset.path.as_str()) {
            Some(f) => f,
            None => return None,
        };
        match schema {
            Schema::Legacy { .. } => Some("initrd-".to_owned().concat(f.as_str())),
            Schema::Blsforme { .. } => {
                Some(self.kernel.version.clone().concat("/").concat(f.as_str()))
            },
        }
    }
}

} // verus!
