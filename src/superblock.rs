//! Filesystem superblock detection over an in-memory prefix of a block device.
//!
//! Each reader checks the magic of one filesystem at its fixed offset and
//! extracts the UUID and the raw volume label. [`for_reader`] tries them in a
//! fixed order and returns the first that matches.

use vstd::prelude::*;
use vstd::utf8::{decode_utf8, valid_utf8};

verus! {

/// The filesystems whose superblocks are recognised.
#[derive(Debug, Clone, Copy, PartialEq, Eq, Structural)]
pub enum Kind {
    Btrfs,
    Ext4,
    LUKS2,
    F2FS,
    XFS,
}

impl Kind {
    /// Short lower-case name of the filesystem.
    pub fn name(&self) -> (r: &'static str)
        ensures
            r@ == kind_name(*self),
    {
        match self {
            Kind::Btrfs => "btrfs",
            Kind::Ext4 => "ext4",
            Kind::LUKS2 => "luks2",
            Kind::F2FS => "f2fs",
            Kind::XFS => "xfs",
        }
    }
}

pub open spec fn kind_name(k: Kind) -> Seq<char> {
    match k {
        Kind::Btrfs => "btrfs"@,
        Kind::Ext4 => "ext4"@,
        Kind::LUKS2 => "luks2"@,
        Kind::F2FS => "f2fs"@,
        Kind::XFS => "xfs"@,
    }
}

/// Superblock decoding errors.
#[derive(Debug, Clone, Copy, PartialEq, Eq, Structural)]
pub enum Error {
    /// No reader recognised the data.
    UnknownSuperblock,
    /// The filesystem does not record the requested property.
    UnsupportedFeature,
    /// A text field is not valid UTF-8.
    Utf8Decoding,
    /// A text field is not valid UTF-16.
    Utf16Decoding,
    /// The magic number does not match.
    InvalidMagic,
    /// The data ends before the superblock does.
    IO,
}

/// Lower-case hexadecimal digits.
pub open spec fn hex_digit(n: int) -> char {
    seq!['0', '1', '2', '3', '4', '5', '6', '7', '8', '9', 'a', 'b', 'c', 'd', 'e', 'f'][n]
}

/// Two lower-case hexadecimal digits per byte.
pub open spec fn hex_of(b: Seq<u8>) -> Seq<char>
    decreases b.len(),
{
    if b.len() == 0 {
        seq![]
    } else {
        hex_of(b.drop_last()) + seq![hex_digit(b.last() as int / 16), hex_digit(b.last() as int % 16)]
    }
}

/// The hyphenated lower-case form of a 16-byte UUID (8-4-4-4-12 digits).
pub open spec fn hyphenated(b: Seq<u8>) -> Seq<char> {
    hex_of(b.subrange(0, 4)) + seq!['-'] + hex_of(b.subrange(4, 6)) + seq!['-'] + hex_of(
        b.subrange(6, 8),
    ) + seq!['-'] + hex_of(b.subrange(8, 10)) + seq!['-'] + hex_of(b.subrange(10, 16))
}

/// UTF-16 decoding: a unit outside `0xD800..=0xDFFF` is the character of that
/// code; a high surrogate followed by a low surrogate is the character
/// `0x10000 + (high - 0xD800) * 0x400 + (low - 0xDC00)`; any other surrogate
/// makes the whole sequence invalid (`None`).
pub open spec fn utf16_decode(units: Seq<u16>) -> Option<Seq<char>>
    decreases units.len(),
{
    if units.len() == 0 {
        Some(seq![])
    } else if units[0] < 0xD800 || units[0] > 0xDFFF {
        match utf16_decode(units.drop_first()) {
            Some(rest) => Some(seq![(units[0] as u32) as char] + rest),
            None => None,
        }
    } else if units[0] <= 0xDBFF && units.len() >= 2 && 0xDC00 <= units[1] && units[1] <= 0xDFFF {
        let code = 0x10000 + (units[0] as int - 0xD800) * 0x400 + (units[1] as int - 0xDC00);
        match utf16_decode(units.subrange(2, units.len() as int)) {
            Some(rest) => Some(seq![(code as u32) as char] + rest),
            None => None,
        }
    } else {
        None
    }
}

/// Relies on `uuid::Uuid::from_bytes` and its hyphenated rendering, which prints
/// the 16 bytes in order as lower-case hex digits grouped 8-4-4-4-12.
#[verifier::external_body]
pub(crate) fn uuid_text(b: &[u8]) -> (r: String)
    requires
        b@.len() == 16,
    ensures
        r@ == hyphenated(b@),
{
    let mut a = [0u8; 16];
    a.copy_from_slice(b);
    uuid::Uuid::from_bytes(a).hyphenated().to_string()
}

/// Relies on `std::str::from_utf8`: succeeds exactly on valid UTF-8 and decodes it.
#[verifier::external_body]
pub(crate) fn utf8_text(b: &[u8]) -> (r: Option<String>)
    ensures
        r is Some <==> valid_utf8(b@),
        r matches Some(s) ==> s@ == decode_utf8(b@),
{
    std::str::from_utf8(b).ok().map(|s| s.to_string())
}

/// Relies on `String::from_utf16`: the decoded text, or `None` for invalid UTF-16.
#[verifier::external_body]
pub(crate) fn utf16_text(units: &[u16]) -> (r: Option<String>)
    ensures
        r matches Some(s) ==> utf16_decode(units@) == Some(s@),
        r is None ==> utf16_decode(units@) is None,
{
    String::from_utf16(units).ok()
}

/// `b` without its trailing zero bytes.
pub open spec fn strip_zeros(b: Seq<u8>) -> Seq<u8>
    decreases b.len(),
{
    if b.len() > 0 && b.last() == 0 {
        strip_zeros(b.drop_last())
    } else {
        b
    }
}

/// `u` without its trailing zero code units.
pub open spec fn strip_zero_units(u: Seq<u16>) -> Seq<u16>
    decreases u.len(),
{
    if u.len() > 0 && u.last() == 0 {
        strip_zero_units(u.drop_last())
    } else {
        u
    }
}

/// Little-endian 16-bit code units read from `b`, two bytes each.
pub open spec fn units_le(b: Seq<u8>) -> Seq<u16>
    decreases b.len(),
{
    if b.len() < 2 {
        seq![]
    } else {
        units_le(b.subrange(0, b.len() - 2)).push(
            (b[b.len() - 2] as int + 256 * (b[b.len() - 1] as int)) as u16,
        )
    }
}

// Offsets of the fields read, from the start of the device.
pub const EXT4_START: usize = 1024;
pub const EXT4_SIZE: usize = 1024;
pub const EXT4_MAGIC_AT: usize = 1080;
pub const EXT4_UUID_AT: usize = 1128;
pub const EXT4_LABEL_AT: usize = 1144;

pub const BTRFS_START: usize = 0x10000;
pub const BTRFS_SIZE: usize = 104;
pub const BTRFS_FSID_AT: usize = 0x10020;
pub const BTRFS_MAGIC_AT: usize = 0x10040;

pub const F2FS_START: usize = 1024;
pub const F2FS_SIZE: usize = 3072;
pub const F2FS_UUID_AT: usize = 1132;
pub const F2FS_LABEL_AT: usize = 1148;
pub const F2FS_LABEL_UNITS: usize = 512;

pub const XFS_SIZE: usize = 264;
pub const XFS_UUID_AT: usize = 32;
pub const XFS_LABEL_AT: usize = 108;
pub const XFS_LABEL_LEN: usize = 12;

pub const LUKS2_SIZE: usize = 4096;
pub const LUKS2_LABEL_AT: usize = 24;
pub const LUKS2_LABEL_LEN: usize = 48;
pub const LUKS2_UUID_AT: usize = 168;
pub const LUKS2_UUID_LEN: usize = 40;

/// An EXT4 superblock: magic `0xEF53` (little-endian) at byte 1080.
pub struct Ext4 {
    pub uuid: String,
    pub volume_name: Vec<u8>,
}

/// A BTRFS superblock: magic `_BHRfS_M` at byte `0x10040`.
pub struct Btrfs {
    pub uuid: String,
}

/// An F2FS superblock: magic `0xF2F52010` (little-endian) at byte 1024.
pub struct F2FS {
    pub uuid: String,
    pub volume_name: Vec<u16>,
}

/// An XFS superblock: magic `XFSB` (big-endian fields) at byte 0.
pub struct XFS {
    pub uuid: String,
    pub fname: Vec<u8>,
}

/// A LUKS2 header: magic `LUKS\xba\xbe` or `SKUL\xba\xbe` at byte 0; the UUID
/// is stored as text, kept here as its raw field.
pub struct Luks2 {
    pub uuid: Vec<u8>,
    pub label: Vec<u8>,
}

/// A recognised superblock.
pub enum Superblock {
    Btrfs(Btrfs),
    Ext4(Ext4),
    F2FS(F2FS),
    XFS(XFS),
    LUKS2(Luks2),
}

pub open spec fn ext4_fits(b: Seq<u8>) -> bool {
    b.len() >= EXT4_START + EXT4_SIZE && b[1080] == 0x53 && b[1081] == 0xEF
}

pub open spec fn btrfs_fits(b: Seq<u8>) -> bool {
    &&& b.len() >= BTRFS_START + BTRFS_SIZE
    &&& b.subrange(BTRFS_MAGIC_AT as int, BTRFS_MAGIC_AT + 8) == seq![
        0x5Fu8,
        0x42u8,
        0x48u8,
        0x52u8,
        0x66u8,
        0x53u8,
        0x5Fu8,
        0x4Du8,
    ]
}

pub open spec fn f2fs_fits(b: Seq<u8>) -> bool {
    &&& b.len() >= F2FS_START + F2FS_SIZE
    &&& b[1024] == 0x10 && b[1025] == 0x20 && b[1026] == 0xF5 && b[1027] == 0xF2
}

pub open spec fn xfs_fits(b: Seq<u8>) -> bool {
    b.len() >= XFS_SIZE && b[0] == 0x58 && b[1] == 0x46 && b[2] == 0x53 && b[3] == 0x42
}

pub open spec fn luks2_uuid_bytes(b: Seq<u8>) -> Seq<u8> {
    strip_zeros(b.subrange(LUKS2_UUID_AT as int, LUKS2_UUID_AT + LUKS2_UUID_LEN))
}

pub open spec fn luks2_fits(b: Seq<u8>) -> bool {
    &&& b.len() >= LUKS2_SIZE
    &&& (b.subrange(0, 4) == seq![0x4Cu8, 0x55u8, 0x4Bu8, 0x53u8] || b.subrange(0, 4) == seq![
        0x53u8,
        0x4Bu8,
        0x55u8,
        0x4Cu8,
    ])
    &&& b[4] == 0xBA && b[5] == 0xBE
}

/// `sb` is the EXT4 superblock held in `b`.
pub open spec fn is_ext4_of(sb: Ext4, b: Seq<u8>) -> bool {
    &&& sb.uuid@ == hyphenated(b.subrange(EXT4_UUID_AT as int, EXT4_UUID_AT + 16))
    &&& sb.volume_name@ == b.subrange(EXT4_LABEL_AT as int, EXT4_LABEL_AT + 16)
}

pub open spec fn is_btrfs_of(sb: Btrfs, b: Seq<u8>) -> bool {
    sb.uuid@ == hyphenated(b.subrange(BTRFS_FSID_AT as int, BTRFS_FSID_AT + 16))
}

pub open spec fn is_f2fs_of(sb: F2FS, b: Seq<u8>) -> bool {
    &&& sb.uuid@ == hyphenated(b.subrange(F2FS_UUID_AT as int, F2FS_UUID_AT + 16))
    &&& sb.volume_name@ == units_le(
        b.subrange(F2FS_LABEL_AT as int, F2FS_LABEL_AT + 2 * F2FS_LABEL_UNITS),
    )
}

pub open spec fn is_xfs_of(sb: XFS, b: Seq<u8>) -> bool {
    &&& sb.uuid@ == hyphenated(b.subrange(XFS_UUID_AT as int, XFS_UUID_AT + 16))
    &&& sb.fname@ == b.subrange(XFS_LABEL_AT as int, XFS_LABEL_AT + XFS_LABEL_LEN)
}

pub open spec fn is_luks2_of(sb: Luks2, b: Seq<u8>) -> bool {
    &&& sb.uuid@ == b.subrange(LUKS2_UUID_AT as int, LUKS2_UUID_AT + LUKS2_UUID_LEN)
    &&& sb.label@ == b.subrange(LUKS2_LABEL_AT as int, LUKS2_LABEL_AT + LUKS2_LABEL_LEN)
}

/// The superblock that [`for_reader`] finds in `b`, stated per kind.
pub open spec fn detected(sb: Superblock, b: Seq<u8>) -> bool {
    if ext4_fits(b) {
        sb matches Superblock::Ext4(e) && is_ext4_of(e, b)
    } else if btrfs_fits(b) {
        sb matches Superblock::Btrfs(e) && is_btrfs_of(e, b)
    } else if f2fs_fits(b) {
        sb matches Superblock::F2FS(e) && is_f2fs_of(e, b)
    } else if xfs_fits(b) {
        sb matches Superblock::XFS(e) && is_xfs_of(e, b)
    } else {
        luks2_fits(b) && (sb matches Superblock::LUKS2(e) && is_luks2_of(e, b))
    }
}

pub open spec fn any_fits(b: Seq<u8>) -> bool {
    ext4_fits(b) || btrfs_fits(b) || f2fs_fits(b) || xfs_fits(b) || luks2_fits(b)
}

/// The kind of the superblock found in `b`, where one is.
pub open spec fn kind_in(b: Seq<u8>) -> Kind {
    if ext4_fits(b) {
        Kind::Ext4
    } else if btrfs_fits(b) {
        Kind::Btrfs
    } else if f2fs_fits(b) {
        Kind::F2FS
    } else if xfs_fits(b) {
        Kind::XFS
    } else {
        Kind::LUKS2
    }
}

/// The text of a LUKS2 UUID field without its trailing NULs, or
/// `Utf8Decoding` where that is not valid UTF-8.
pub open spec fn luks2_uuid_text(field: Seq<u8>) -> Result<Seq<char>, Error> {
    if valid_utf8(strip_zeros(field)) {
        Ok(decode_utf8(strip_zeros(field)))
    } else {
        Err(Error::Utf8Decoding)
    }
}

/// The UUID of the superblock found in `b`, where one is.
pub open spec fn uuid_in(b: Seq<u8>) -> Result<Seq<char>, Error> {
    if ext4_fits(b) {
        Ok(hyphenated(b.subrange(EXT4_UUID_AT as int, EXT4_UUID_AT + 16)))
    } else if btrfs_fits(b) {
        Ok(hyphenated(b.subrange(BTRFS_FSID_AT as int, BTRFS_FSID_AT + 16)))
    } else if f2fs_fits(b) {
        Ok(hyphenated(b.subrange(F2FS_UUID_AT as int, F2FS_UUID_AT + 16)))
    } else if xfs_fits(b) {
        Ok(hyphenated(b.subrange(XFS_UUID_AT as int, XFS_UUID_AT + 16)))
    } else {
        luks2_uuid_text(b.subrange(LUKS2_UUID_AT as int, LUKS2_UUID_AT + LUKS2_UUID_LEN))
    }
}

pub open spec fn spec_kind(sb: Superblock) -> Kind {
    match sb {
        Superblock::Btrfs(_) => Kind::Btrfs,
        Superblock::Ext4(_) => Kind::Ext4,
        Superblock::F2FS(_) => Kind::F2FS,
        Superblock::XFS(_) => Kind::XFS,
        Superblock::LUKS2(_) => Kind::LUKS2,
    }
}

/// The UUID of a superblock, as [`Superblock::uuid`] reports it.
pub open spec fn spec_uuid(sb: Superblock) -> Result<Seq<char>, Error> {
    match sb {
        Superblock::Btrfs(s) => Ok(s.uuid@),
        Superblock::Ext4(s) => Ok(s.uuid@),
        Superblock::F2FS(s) => Ok(s.uuid@),
        Superblock::XFS(s) => Ok(s.uuid@),
        Superblock::LUKS2(s) => luks2_uuid_text(s.uuid@),
    }
}

/// The volume label of a superblock, as [`Superblock::label`] reports it.
pub open spec fn spec_label(sb: Superblock) -> Result<Seq<char>, Error> {
    match sb {
        Superblock::Btrfs(_) => Err(Error::UnsupportedFeature),
        Superblock::Ext4(s) => if valid_utf8(s.volume_name@) {
            Ok(decode_utf8(s.volume_name@))
        } else {
            Err(Error::Utf8Decoding)
        },
        Superblock::F2FS(s) => match utf16_decode(strip_zero_units(s.volume_name@)) {
            Some(t) => Ok(t),
            None => Err(Error::Utf16Decoding),
        },
        Superblock::XFS(s) => if valid_utf8(strip_zeros(s.fname@)) {
            Ok(decode_utf8(strip_zeros(s.fname@)))
        } else {
            Err(Error::Utf8Decoding)
        },
        Superblock::LUKS2(s) => if valid_utf8(strip_zeros(s.label@)) {
            Ok(decode_utf8(strip_zeros(s.label@)))
        } else {
            Err(Error::Utf8Decoding)
        },
    }
}

fn bytes_at(b: &[u8], lo: usize, n: usize) -> (r: Vec<u8>)
    requires
        lo + n <= b@.len(),
    ensures
        r@ == b@.subrange(lo as int, lo + n),
{
    let mut r: Vec<u8> = Vec::new();
    let mut i: usize = 0;
    let len = b.len();
    while i < n
        invariant
            i <= n,
            len == b@.len(),
            lo + n <= b@.len(),
            r@ == b@.subrange(lo as int, lo + i),
        decreases n - i,
    {
        r.push(b[lo + i]);
        i = i + 1;
    }
    r
}

fn strip_trailing_zeros(b: &Vec<u8>) -> (r: Vec<u8>)
    ensures
        r@ == strip_zeros(b@),
{
    let mut r = b.clone();
    while r.len() > 0 && r[r.len() - 1] == 0
        invariant
            strip_zeros(r@) == strip_zeros(b@),
        decreases r@.len(),
    {
        r.pop();
    }
    r
}

fn strip_trailing_zero_units(u: &Vec<u16>) -> (r: Vec<u16>)
    ensures
        r@ == strip_zero_units(u@),
{
    let mut r = u.clone();
    while r.len() > 0 && r[r.len() - 1] == 0
        invariant
            strip_zero_units(r@) == strip_zero_units(u@),
        decreases r@.len(),
    {
        r.pop();
    }
    r
}

fn read_units_le(b: &[u8], lo: usize, n: usize) -> (r: Vec<u16>)
    requires
        lo + 2 * n <= b@.len(),
    ensures
        r@ == units_le(b@.subrange(lo as int, lo + 2 * n)),
{
    let mut r: Vec<u16> = Vec::new();
    let mut i: usize = 0;
    let len = b.len();
    while i < n
        invariant
            i <= n,
            len == b@.len(),
            lo + 2 * n <= b@.len(),
            r@ == units_le(b@.subrange(lo as int, lo + 2 * i)),
        decreases n - i,
    {
        let lo_byte = b[lo + 2 * i];
        let hi_byte = b[lo + 2 * i + 1];
        let x: u16 = lo_byte as u16 + 256 * (hi_byte as u16);
        proof {
            let s = b@.subrange(lo as int, lo + 2 * (i + 1));
            assert(s.subrange(0, s.len() - 2) == b@.subrange(lo as int, lo + 2 * i));
            assert(s[s.len() - 2] == b@[lo + 2 * i]);
            assert(s[s.len() - 1] == b@[lo + 2 * i + 1]);
        }
        r.push(x);
        i = i + 1;
    }
    r
}

/// Reads an EXT4 superblock.
pub fn ext4_from_bytes(b: &[u8]) -> (r: Result<Ext4, Error>)
    ensures
        b@.len() < EXT4_START + EXT4_SIZE ==> r == Err::<Ext4, Error>(Error::IO),
        b@.len() >= EXT4_START + EXT4_SIZE && !ext4_fits(b@) ==> r == Err::<Ext4, Error>(
            Error::InvalidMagic,
        ),
        ext4_fits(b@) ==> (r matches Ok(sb) && is_ext4_of(sb, b@)),
{
    if b.len() < EXT4_START + EXT4_SIZE {
        return Err(Error::IO);
    }
    if b[EXT4_MAGIC_AT] != 0x53 || b[EXT4_MAGIC_AT + 1] != 0xEF {
        return Err(Error::InvalidMagic);
    }
    let id = bytes_at(b, EXT4_UUID_AT, 16);
    let uuid = uuid_text(id.as_slice());
    Ok(Ext4 { uuid, volume_name: bytes_at(b, EXT4_LABEL_AT, 16) })
}

/// Reads a BTRFS superblock.
pub fn btrfs_from_bytes(b: &[u8]) -> (r: Result<Btrfs, Error>)
    ensures
        b@.len() < BTRFS_START + BTRFS_SIZE ==> r == Err::<Btrfs, Error>(Error::IO),
        b@.len() >= BTRFS_START + BTRFS_SIZE && !btrfs_fits(b@) ==> r == Err::<Btrfs, Error>(
            Error::InvalidMagic,
        ),
        btrfs_fits(b@) ==> (r matches Ok(sb) && is_btrfs_of(sb, b@)),
{
    if b.len() < BTRFS_START + BTRFS_SIZE {
        return Err(Error::IO);
    }
    let magic = bytes_at(b, BTRFS_MAGIC_AT, 8);
    if magic[0] != 0x5F || magic[1] != 0x42 || magic[2] != 0x48 || magic[3] != 0x52 || magic[4]
        != 0x66 || magic[5] != 0x53 || magic[6] != 0x5F || magic[7] != 0x4D {
        return Err(Error::InvalidMagic);
    }
    assert(magic@ =~= seq![0x5Fu8, 0x42u8, 0x48u8, 0x52u8, 0x66u8, 0x53u8, 0x5Fu8, 0x4Du8]);
    let id = bytes_at(b, BTRFS_FSID_AT, 16);
    Ok(Btrfs { uuid: uuid_text(id.as_slice()) })
}

/// Reads an F2FS superblock.
pub fn f2fs_from_bytes(b: &[u8]) -> (r: Result<F2FS, Error>)
    ensures
        b@.len() < F2FS_START + F2FS_SIZE ==> r == Err::<F2FS, Error>(Error::IO),
        b@.len() >= F2FS_START + F2FS_SIZE && !f2fs_fits(b@) ==> r == Err::<F2FS, Error>(
            Error::InvalidMagic,
        ),
        f2fs_fits(b@) ==> (r matches Ok(sb) && is_f2fs_of(sb, b@)),
{
    if b.len() < F2FS_START + F2FS_SIZE {
        return Err(Error::IO);
    }
    if b[1024] != 0x10 || b[1025] != 0x20 || b[1026] != 0xF5 || b[1027] != 0xF2 {
        return Err(Error::InvalidMagic);
    }
    let id = bytes_at(b, F2FS_UUID_AT, 16);
    let uuid = uuid_text(id.as_slice());
    Ok(F2FS { uuid, volume_name: read_units_le(b, F2FS_LABEL_AT, F2FS_LABEL_UNITS) })
}

/// Reads an XFS superblock.
pub fn xfs_from_bytes(b: &[u8]) -> (r: Result<XFS, Error>)
    ensures
        b@.len() < XFS_SIZE ==> r == Err::<XFS, Error>(Error::IO),
        b@.len() >= XFS_SIZE && !xfs_fits(b@) ==> r == Err::<XFS, Error>(Error::InvalidMagic),
        xfs_fits(b@) ==> (r matches Ok(sb) && is_xfs_of(sb, b@)),
{
    if b.len() < XFS_SIZE {
        return Err(Error::IO);
    }
    if b[0] != 0x58 || b[1] != 0x46 || b[2] != 0x53 || b[3] != 0x42 {
        return Err(Error::InvalidMagic);
    }
    let id = bytes_at(b, XFS_UUID_AT, 16);
    let uuid = uuid_text(id.as_slice());
    Ok(XFS { uuid, fname: bytes_at(b, XFS_LABEL_AT, XFS_LABEL_LEN) })
}

/// Reads a LUKS2 header.
pub fn luks2_from_bytes(b: &[u8]) -> (r: Result<Luks2, Error>)
    ensures
        b@.len() < LUKS2_SIZE ==> r == Err::<Luks2, Error>(Error::IO),
        b@.len() >= LUKS2_SIZE && !luks2_fits(b@) ==> r == Err::<Luks2, Error>(
            Error::InvalidMagic,
        ),
        luks2_fits(b@) ==> (r matches Ok(sb) && is_luks2_of(sb, b@)),
{
    if b.len() < LUKS2_SIZE {
        return Err(Error::IO);
    }
    let head = bytes_at(b, 0, 4);
    let forward = b[0] == 0x4C && b[1] == 0x55 && b[2] == 0x4B && b[3] == 0x53;
    let reversed = b[0] == 0x53 && b[1] == 0x4B && b[2] == 0x55 && b[3] == 0x4C;
    if !(forward || reversed) || b[4] != 0xBA || b[5] != 0xBE {
        proof {
            if head@ == seq![0x4Cu8, 0x55u8, 0x4Bu8, 0x53u8] {
                assert(head@[0] == 0x4C && head@[1] == 0x55 && head@[2] == 0x4B && head@[3]
                    == 0x53);
            }
            if head@ == seq![0x53u8, 0x4Bu8, 0x55u8, 0x4Cu8] {
                assert(head@[0] == 0x53 && head@[1] == 0x4B && head@[2] == 0x55 && head@[3]
                    == 0x4C);
            }
        }
        return Err(Error::InvalidMagic);
    }
    proof {
        if forward {
            assert(head@ =~= seq![0x4Cu8, 0x55u8, 0x4Bu8, 0x53u8]);
        } else {
            assert(head@ =~= seq![0x53u8, 0x4Bu8, 0x55u8, 0x4Cu8]);
        }
    }
    Ok(
        Luks2 {
            uuid: bytes_at(b, LUKS2_UUID_AT, LUKS2_UUID_LEN),
            label: bytes_at(b, LUKS2_LABEL_AT, LUKS2_LABEL_LEN),
        },
    )
}

/// Finds the superblock in a prefix of a block device (2 MiB suffice for every
/// kind), trying EXT4, BTRFS, F2FS, XFS and LUKS2 in that order.
pub fn for_reader(b: &[u8]) -> (r: Result<Superblock, Error>)
    ensures
        any_fits(b@) <==> r is Ok,
        r matches Ok(sb) ==> detected(sb, b@),
        r matches Ok(sb) ==> spec_kind(sb) == kind_in(b@) && spec_uuid(sb) == uuid_in(b@),
        !any_fits(b@) ==> r == Err::<Superblock, Error>(Error::UnknownSuperblock),
{
    if let Ok(block) = ext4_from_bytes(b) {
        return Ok(Superblock::Ext4(block));
    }
    if let Ok(block) = btrfs_from_bytes(b) {
        return Ok(Superblock::Btrfs(block));
    }
    if let Ok(block) = f2fs_from_bytes(b) {
        return Ok(Superblock::F2FS(block));
    }
    if let Ok(block) = xfs_from_bytes(b) {
        return Ok(Superblock::XFS(block));
    }
    if let Ok(block) = luks2_from_bytes(b) {
        return Ok(Superblock::LUKS2(block));
    }
    Err(Error::UnknownSuperblock)
}

impl Superblock {
    /// Which filesystem this superblock belongs to.
    pub fn kind(&self) -> (r: Kind)
        ensures
            r == spec_kind(*self),
    {
        match self {
            Superblock::Btrfs(_) => Kind::Btrfs,
            Superblock::Ext4(_) => Kind::Ext4,
            Superblock::F2FS(_) => Kind::F2FS,
            Superblock::XFS(_) => Kind::XFS,
            Superblock::LUKS2(_) => Kind::LUKS2,
        }
    }

    /// The filesystem UUID; a LUKS2 UUID field that is not UTF-8 gives `Utf8Decoding`.
    pub fn uuid(&self) -> (r: Result<String, Error>)
        ensures
            r matches Ok(s) ==> spec_uuid(*self) == Ok::<Seq<char>, Error>(s@),
            r matches Err(e) ==> spec_uuid(*self) == Err::<Seq<char>, Error>(e),
    {
        match self {
            Superblock::Btrfs(s) => Ok(s.uuid.clone()),
            Superblock::Ext4(s) => Ok(s.uuid.clone()),
            Superblock::F2FS(s) => Ok(s.uuid.clone()),
            Superblock::XFS(s) => Ok(s.uuid.clone()),
            Superblock::LUKS2(s) => {
                let id = strip_trailing_zeros(&s.uuid);
                match utf8_text(id.as_slice()) {
                    Some(t) => Ok(t),
                    None => Err(Error::Utf8Decoding),
                }
            },
        }
    }

    /// The volume label; trailing NULs are dropped for F2FS, XFS and LUKS2.
    pub fn label(&self) -> (r: Result<String, Error>)
        ensures
            r matches Ok(s) ==> spec_label(*self) == Ok::<Seq<char>, Error>(s@),
            r matches Err(e) ==> spec_label(*self) == Err::<Seq<char>, Error>(e),
    {
        match self {
            Superblock::Btrfs(_) => Err(Error::UnsupportedFeature),
            Superblock::Ext4(s) => match utf8_text(s.volume_name.as_slice()) {
                Some(t) => Ok(t),
                None => Err(Error::Utf8Decoding),
            },
            Superblock::F2FS(s) => {
                let units = strip_trailing_zero_units(&s.volume_name);
                match utf16_text(units.as_slice()) {
                    Some(t) => Ok(t),
                    None => Err(Error::Utf16Decoding),
                }
            },
            Superblock::XFS(s) => {
                let name = strip_trailing_zeros(&s.fname);
                match utf8_text(name.as_slice()) {
                    Some(t) => Ok(t),
                    None => Err(Error::Utf8Decoding),
                }
            },
            Superblock::LUKS2(s) => {
                let name = strip_trailing_zeros(&s.label);
                match utf8_text(name.as_slice()) {
                    Some(t) => Ok(t),
                    None => Err(Error::Utf8Decoding),
                }
            },
        }
    }
}

} // verus!
