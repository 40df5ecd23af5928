//! Boot Loader Specification management: storage topology probing, kernel
//! discovery, boot entry generation and reconciliation of a `$BOOT` volume.

use vstd::prelude::*;

pub mod bootenv;
pub mod bootloader;
pub mod device;
pub mod entry;
pub mod file_utils;
pub mod interface;
pub mod kernel;
pub mod manager;
pub mod mtab;
pub mod order;
pub mod os_release;
pub mod path;
pub mod superblock;
pub mod text;

verus! {

/// Core error type
#[derive(Debug, Clone, PartialEq, Eq)]
pub enum Error {
    /// Boot loader interface (efivars) failure
    BootLoaderProtocol(interface::Error),
    /// Bootloader installation failure
    Bootloader(bootloader::Error),
    /// No XBOOTLDR partition where one is required
    NoXBOOTLDR,
    /// No EFI System Partition on a UEFI system
    NoESP,
    /// A path did not have the expected shape
    InvalidFilesystem,
    /// Image mode requires the ESP to be mounted already
    UnmountedESP(String),
    /// BIOS firmware, or an operation the configuration does not allow
    Unsupported,
}

/// Wrap a root into a strong type to avoid confusion
pub enum Root {
    /// Native installation
    Native(String),
    /// Image generation
    Image(String),
}

/// Core configuration for boot management
pub struct Configuration {
    /// Root of all operations
    pub root: Root,
    /// Where `sysfs`, `proc` and friends can be found
    pub vfs: String,
}

pub open spec fn root_path(r: Root) -> Seq<char> {
    match r {
        Root::Native(p) => p@,
        Root::Image(p) => p@,
    }
}

impl Root {
    /// The root's path, whatever its kind.
    pub fn path(&self) -> (r: &String)
        ensures
            r@ == root_path(*self),
    {
        match self {
            Root::Native(p) => p,
            Root::Image(p) => p,
        }
    }

    /// Whether this is an image root.
    pub fn is_image(&self) -> (r: bool)
        ensures
            r == (self is Image),
    {
        match self {
            Root::Native(_) => false,
            Root::Image(_) => true,
        }
    }
}

} // verus!
