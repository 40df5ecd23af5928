//! The boot environment: firmware, the EFI System Partition and an optional
//! XBOOTLDR partition, and where they are mounted.

use crate::text::{chars_eq, chars_of};
use crate::Error;
use vstd::prelude::*;

verus! {

/// Type of firmware detected
#[derive(Debug, Clone, Copy, PartialEq, Eq, Structural)]
pub enum Firmware {
    /// UEFI
    UEFI,
    /// Legacy BIOS
    BIOS,
}

/// GPT partition type of the EFI System Partition.
pub const EFI_PARTITION_TYPE: &'static str = "C12A7328-F81F-11D2-BA4B-00A0C93EC93B";

/// GPT partition type of an XBOOTLDR partition.
pub const XBOOTLDR_PARTITION_TYPE: &'static str = "BC13C2FF-59E6-4262-A352-B275FD6F7172";

/// A GPT partition entry: its type GUID as the upper-case text of the
/// partition type tables, and its own GUID as lower-case hyphenated text.
pub struct GptPartition {
    pub type_guid: String,
    pub part_guid: String,
}

/// Helps access the boot environment, ie `$BOOT` and the ESP
pub struct BootEnvironment {
    /// xbootldr device
    pub xbootldr: Option<String>,
    /// The EFI System Partition (stored as a device path)
    pub esp: Option<String>,
    /// Firmware in use
    pub firmware: Firmware,
    pub esp_mountpoint: Option<String>,
    pub xboot_mountpoint: Option<String>,
}

pub open spec fn opt_view(o: Option<String>) -> Option<Seq<char>> {
    match o {
        Some(s) => Some(s@),
        None => None,
    }
}

pub open spec fn part_views(p: Seq<GptPartition>) -> Seq<(Seq<char>, Seq<char>)> {
    p.map_values(|x: GptPartition| (x.type_guid@, x.part_guid@))
}

/// The GUID of the first partition of the given type.
pub open spec fn first_of_type_in(parts: Seq<(Seq<char>, Seq<char>)>, t: Seq<char>) -> Option<Seq<char>>
    decreases parts.len(),
{
    if parts.len() == 0 {
        None
    } else if parts[0].0 == t {
        Some(parts[0].1)
    } else {
        first_of_type_in(parts.drop_first(), t)
    }
}

/// The GUID of the first partition of the given type.
pub fn first_of_type(parts: &Vec<GptPartition>, type_guid: &str) -> (r: Option<String>)
    ensures
        opt_view(r) == first_of_type_in(part_views(parts@), type_guid@),
{
    let ghost pv = part_views(parts@);
    let t = chars_of(type_guid);
    let mut i: usize = 0;
    assert(pv.subrange(0, pv.len() as int) == pv);
    while i < parts.len()
        invariant
            i <= parts@.len(),
            pv == part_views(parts@),
            t@ == type_guid@,
            first_of_type_in(pv, t@) == first_of_type_in(pv.subrange(i as int, pv.len() as int), t@),
        decreases parts@.len() - i,
    {
        let c = chars_of(parts[i].type_guid.as_str());
        let ghost rest = pv.subrange(i as int, pv.len() as int);
        assert(rest[0] == (parts@[i as int].type_guid@, parts@[i as int].part_guid@));
        if chars_eq(&c, &t) {
            return Some(parts[i].part_guid.clone());
        }
        assert(rest.drop_first() == pv.subrange(i + 1, pv.len() as int));
        i = i + 1;
    }
    None
}

/// Where the device `dev` is mounted: the last of the `(device, mountpoint)`
/// pairs naming it.
pub open spec fn mountpoint_in(mounted: Seq<(Seq<char>, Seq<char>)>, dev: Seq<char>) -> Option<
    Seq<char>,
>
    decreases mounted.len(),
{
    if mounted.len() == 0 {
        None
    } else if mounted.last().0 == dev {
        Some(mounted.last().1)
    } else {
        mountpoint_in(mounted.drop_last(), dev)
    }
}

pub open spec fn pair_views(p: Seq<(String, String)>) -> Seq<(Seq<char>, Seq<char>)> {
    p.map_values(|x: (String, String)| (x.0@, x.1@))
}

fn mountpoint_for(mounted: &Vec<(String, String)>, dev: &String) -> (r: Option<String>)
    ensures
        opt_view(r) == mountpoint_in(pair_views(mounted@), dev@),
{
    let ghost mv = pair_views(mounted@);
    let mut n = mounted.len();
    assert(mv.subrange(0, mv.len() as int) == mv);
    while n > 0
        invariant
            n <= mounted@.len(),
            mv == pair_views(mounted@),
            mountpoint_in(mv, dev@) == mountpoint_in(mv.subrange(0, n as int), dev@),
        decreases n,
    {
        proof {
            assert(mv.subrange(0, n as int).drop_last() == mv.subrange(0, n - 1));
            assert(mv.subrange(0, n as int).last() == (mounted@[n - 1].0@, mounted@[n - 1].1@));
        }
        if mounted[n - 1].0 == *dev {
            return Some(mounted[n - 1].1.clone());
        }
        n = n - 1;
    }
    None
}

/// The ESP chosen: in image mode only a GPT scan counts; otherwise the Boot
/// Loader Interface answer (UEFI only), else the GPT scan.
pub open spec fn esp_choice(
    firmware: Firmware,
    image_mode: bool,
    bls: Option<Seq<char>>,
    gpt: Option<Seq<char>>,
) -> Option<Seq<char>> {
    if image_mode {
        gpt
    } else if firmware == Firmware::UEFI && bls is Some {
        bls
    } else {
        gpt
    }
}

pub open spec fn mount_of(o: Option<Seq<char>>, mounted: Seq<(Seq<char>, Seq<char>)>) -> Option<
    Seq<char>,
> {
    match o {
        Some(d) => mountpoint_in(mounted, d),
        None => None,
    }
}

impl BootEnvironment {
    /// The boot environment from the probe results: the ESP reported by the
    /// Boot Loader Interface and the one found by a GPT scan, the XBOOTLDR
    /// found next to the ESP, and the canonical `(device, mountpoint)` pairs
    /// of the mount table. A UEFI system without an ESP is an error.
    pub fn new(
        firmware: Firmware,
        image_mode: bool,
        bls_esp: Option<String>,
        gpt_esp: Option<String>,
        xbootldr: Option<String>,
        mounted: &Vec<(String, String)>,
    ) -> (r: Result<BootEnvironment, Error>)
        ensures
            ({
                let esp = esp_choice(firmware, image_mode, opt_view(bls_esp), opt_view(gpt_esp));
                let mv = pair_views(mounted@);
                match r {
                    Err(e) => e == Error::NoESP && firmware == Firmware::UEFI && esp is None,
                    Ok(b) => {
                        &&& !(firmware == Firmware::UEFI && esp is None)
                        &&& b.firmware == firmware
                        &&& opt_view(b.esp) == esp
                        &&& opt_view(b.esp_mountpoint) == mount_of(esp, mv)
                        &&& opt_view(b.xbootldr) == (if esp is Some {
                            opt_view(xbootldr)
                        } else {
                            None
                        })
                        &&& opt_view(b.xboot_mountpoint) == mount_of(opt_view(b.xbootldr), mv)
                    },
                }
            }),
    {
        let esp = if image_mode {
            gpt_esp
        } else if firmware == Firmware::UEFI && bls_esp.is_some() {
            bls_esp
        } else {
            gpt_esp
        };
        if firmware == Firmware::UEFI && esp.is_none() {
            return Err(Error::NoESP);
        }
        let esp_mountpoint = match &esp {
            Some(e) => mountpoint_for(mounted, e),
            None => None,
        };
        let xbootldr = if esp.is_some() {
            xbootldr
        } else {
            None
        };
        let xboot_mountpoint = match &xbootldr {
            Some(x) => mountpoint_for(mounted, x),
            None => None,
        };
        Ok(BootEnvironment { xbootldr, esp, firmware, esp_mountpoint, xboot_mountpoint })
    }

    /// The so-called `$BOOT` partition: XBOOTLDR if present, else the ESP
    pub fn boot_partition(&self) -> (r: Option<&String>)
        ensures
            match r {
                Some(p) => Some(*p) == (if self.xbootldr is Some {
                    self.xbootldr
                } else {
                    self.esp
                }),
                None => self.xbootldr is None && self.esp is None,
            },
    {
        if let Some(part) = &self.xbootldr {
            Some(part)
        } else {
            match &self.esp {
                Some(e) => Some(e),
                None => None,
            }
        }
    }

    /// Return the EFI System Partition
    pub fn esp(&self) -> (r: Option<&String>)
        ensures
            match r {
                Some(p) => self.esp == Some(*p),
                None => self.esp is None,
            },
    {
        match &self.esp {
            Some(e) => Some(e),
            None => None,
        }
    }

    /// Return the XBOOTLDR partition
    pub fn xbootldr(&self) -> (r: Option<&String>)
        ensures
            match r {
                Some(p) => self.xbootldr == Some(*p),
                None => self.xbootldr is None,
            },
    {
        match &self.xbootldr {
            Some(e) => Some(e),
            None => None,
        }
    }
}

} // verus!
