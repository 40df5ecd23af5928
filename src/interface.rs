//! The Boot Loader Interface of systemd: EFI variables read through
//! `efivarfs`, each 4 attribute bytes followed by a NUL-terminated UCS-2
//! little-endian string.

use crate::path::{join, join_path, lower_of, lowercase};
use crate::superblock::{units_le, utf16_decode, utf16_text};
use crate::text::{chars_of, copy_range, starts_with, string_from};
use vstd::prelude::*;
use vstd::string::StringExecFns;

verus! {

/// The vendor UUID of the Boot Loader Interface variables.
pub const UUID: &'static str = "4a67b082-0a4c-41cf-b6c7-440b29bb8c4f";

/// Boot Loader Interface errors
#[derive(Debug, Clone, Copy, PartialEq, Eq, Structural)]
pub enum Error {
    /// The string is not valid UTF-16
    UTF16Decoding,
    /// The variable could not be read
    IO,
    /// The variable does not hold a whole number of code units
    Malformed,
    /// The device does not lie below the root
    InvalidPrefix,
}

/// Variables that are read
#[derive(Debug, Clone, Copy, PartialEq, Eq, Structural)]
pub enum VariableName {
    DevicePartUUID,
    Info,
}

pub open spec fn variable_name(v: VariableName) -> Seq<char> {
    match v {
        VariableName::DevicePartUUID => "LoaderDevicePartUUID"@,
        VariableName::Info => "LoaderInfo"@,
    }
}

impl VariableName {
    /// The EFI variable name
    pub fn as_str(&self) -> (r: &'static str)
        ensures
            r@ == variable_name(*self),
    {
        match self {
            VariableName::DevicePartUUID => "LoaderDevicePartUUID",
            VariableName::Info => "LoaderInfo",
        }
    }
}

/// Access to the Boot Loader Interface relative to a (canonical) root.
pub struct BootLoaderInterface {
    /// All queries are performed relative to this root
    pub root: String,
    /// EFI vars directory
    pub efi_dir: String,
    /// The /dev/disk/by-partuuid dir
    pub disk_dir: String,
}

/// The UCS-2 code units of a variable's contents: after the 4 attribute
/// bytes, without the final NUL terminator.
pub open spec fn ucs2_units(raw: Seq<u8>) -> Seq<u16> {
    let body = if raw.len() >= 4 {
        units_le(raw.subrange(4, raw.len() as int))
    } else {
        seq![]
    };
    if body.len() > 0 {
        body.drop_last()
    } else {
        body
    }
}

/// The string held by a variable's contents.
pub open spec fn ucs2_string(raw: Seq<u8>) -> Result<Seq<char>, Error> {
    if raw.len() >= 4 && raw.len() % 2 == 1 {
        Err(Error::Malformed)
    } else {
        match utf16_decode(ucs2_units(raw)) {
            Some(s) => Ok(s),
            None => Err(Error::UTF16Decoding),
        }
    }
}

/// `p` as an absolute path below `root`: `/` followed by what follows
/// `root/`, or `None` where `p` does not lie below `root`.
pub open spec fn below_root(p: Seq<char>, root: Seq<char>) -> Option<Seq<char>> {
    if p == root {
        Some(seq!['/'])
    } else if root.len() > 0 && root.last() == '/' && starts_with(p, root) {
        Some(seq!['/'] + p.subrange(root.len() as int, p.len() as int))
    } else if starts_with(p, root + seq!['/']) {
        Some(p.subrange(root.len() as int, p.len() as int))
    } else {
        None
    }
}

/// Decodes the string of a Boot Loader Interface variable.
pub fn ucs2_decode(raw: &[u8]) -> (r: Result<String, Error>)
    ensures
        match r {
            Ok(s) => ucs2_string(raw@) == Ok::<Seq<char>, Error>(s@),
            Err(e) => ucs2_string(raw@) == Err::<Seq<char>, Error>(e),
        },
{
    let n = raw.len();
    if n >= 4 && n % 2 == 1 {
        return Err(Error::Malformed);
    }
    let mut units: Vec<u16> = Vec::new();
    if n >= 4 {
        let mut i: usize = 0;
        let count = (n - 4) / 2;
        while i < count
            invariant
                n == raw@.len(),
                n >= 4,
                count == (n - 4) / 2,
                i <= count,
                units@ == units_le(raw@.subrange(4, 4 + 2 * i)),
            decreases count - i,
        {
            let lo = raw[4 + 2 * i];
            let hi = raw[4 + 2 * i + 1];
            proof {
                let s = raw@.subrange(4, 4 + 2 * (i + 1));
                assert(s.subrange(0, s.len() - 2) == raw@.subrange(4, 4 + 2 * i));
                assert(s[s.len() - 2] == raw@[4 + 2 * i]);
                assert(s[s.len() - 1] == raw@[4 + 2 * i + 1]);
            }
            units.push(lo as u16 + 256 * (hi as u16));
            i = i + 1;
        }
        assert(4 + 2 * count == n);
        assert(raw@.subrange(4, 4 + 2 * count) == raw@.subrange(4, n as int));
    }
    if units.len() > 0 {
        units.pop();
    }
    match utf16_text(units.as_slice()) {
        Some(s) => Ok(s),
        None => Err(Error::UTF16Decoding),
    }
}

impl BootLoaderInterface {
    /// The interface below the canonical `root`.
    pub fn new(root: String) -> (r: Self)
        ensures
            r.root == root,
            r.efi_dir@ == join(join(join(join(root@, "sys"@), "firmware"@), "efi"@), "efivars"@),
            r.disk_dir@ == join(join(join(root@, "dev"@), "disk"@), "by-partuuid"@),
    {
        let a = join_path(root.as_str(), "sys");
        let b = join_path(a.as_str(), "firmware");
        let c = join_path(b.as_str(), "efi");
        let efi_dir = join_path(c.as_str(), "efivars");
        let d = join_path(root.as_str(), "dev");
        let e = join_path(d.as_str(), "disk");
        let disk_dir = join_path(e.as_str(), "by-partuuid");
        BootLoaderInterface { root, efi_dir, disk_dir }
    }

    /// The efivars file of a variable: `<name>-<vendor uuid>`.
    pub fn join_var(&self, var: VariableName) -> (r: String)
        ensures
            r@ == join(self.efi_dir@, variable_name(var) + "-"@ + UUID@),
    {
        let mut name = var.as_str().to_owned();
        name.append("-");
        name.append(UUID);
        join_path(self.efi_dir.as_str(), name.as_str())
    }

    /// The PartUUID of the device that booted, from the contents of the
    /// `LoaderDevicePartUUID` variable, in lower case.
    pub fn get_device_part_uuid(&self, raw: &[u8]) -> (r: Result<String, Error>)
        ensures
            match r {
                Ok(s) => ucs2_string(raw@) matches Ok(t) && s@ == lower_of(t),
                Err(e) => ucs2_string(raw@) == Err::<Seq<char>, Error>(e),
            },
    {
        match ucs2_decode(raw) {
            Ok(s) => Ok(lowercase(s.as_str())),
            Err(e) => Err(e),
        }
    }

    /// The by-partuuid link of a PartUUID.
    pub fn partuuid_link(&self, uuid: &str) -> (r: String)
        ensures
            r@ == join(self.disk_dir@, uuid@),
    {
        join_path(self.disk_dir.as_str(), uuid)
    }

    /// The device path as seen from inside the root, given the canonical
    /// target of the by-partuuid link.
    pub fn device_path_from(&self, canonical: &str) -> (r: Result<String, Error>)
        ensures
            match r {
                Ok(s) => below_root(canonical@, self.root@) == Some(s@),
                Err(e) => below_root(canonical@, self.root@) is None && e == Error::InvalidPrefix,
            },
    {
        let p = chars_of(canonical);
        let root = chars_of(self.root.as_str());
        if crate::text::chars_eq(&p, &root) {
            proof {
                reveal_strlit("/");
            }
            return Ok("/".to_owned());
        }
        if root.len() > 0 && root[root.len() - 1] == '/' && crate::text::has_prefix(&p, &root) {
            let mut r: Vec<char> = Vec::new();
            r.push('/');
            let rest = copy_range(&p, root.len(), p.len());
            crate::text::append_chars(&mut r, &rest);
            return Ok(string_from(r.as_slice()));
        }
        let mut pre = copy_range(&root, 0, root.len());
        pre.push('/');
        assert(root@.subrange(0, root@.len() as int) == root@);
        assert(pre@ == self.root@ + seq!['/']);
        if crate::text::has_prefix(&p, &pre) {
            let rest = copy_range(&p, root.len(), p.len());
            return Ok(string_from(rest.as_slice()));
        }
        Err(Error::InvalidPrefix)
    }
}

} // verus!
