//! Parsing of `/proc/self/mounts`-style tables.
//!
//! Each line holds white-space separated columns
//! `device mountpoint filesystem options ...`; lines with fewer than four
//! columns are skipped. Options are comma separated, either a bare flag or a
//! `key=value` pair split at the first `=`.

use crate::text::{
    chars_eq, chars_of, copy_range, fields, fields_of, lines, lines_of, split, split_chars, string_from,
    views,
};
use vstd::prelude::*;

verus! {

/// One mounted filesystem.
pub struct Mount {
    /// Path of the device used for mounting
    pub device: String,
    /// Where the device was mounted
    pub mountpoint: String,
    /// The filesystem name
    pub filesystem: String,
    /// Raw, comma separated mount options
    pub opts: String,
}

/// A filesystem specific mount option, i.e `subvol=root`.
pub enum MountOption {
    /// Simple mount flag
    Flag(String),
    /// Key-value option for a mount
    Option(String, String),
}

/// A mount table, kept as its text and parsed on demand.
pub struct MountTable {
    data: String,
}

/// The four leading columns of a mount, as text.
pub open spec fn mount_view(m: Mount) -> Seq<Seq<char>> {
    seq![m.device@, m.mountpoint@, m.filesystem@, m.opts@]
}

/// The rows of a table whose lines are `ls`: the first four columns of every
/// line that has at least four.
pub open spec fn rows(ls: Seq<Seq<char>>) -> Seq<Seq<Seq<char>>>
    decreases ls.len(),
{
    if ls.len() == 0 {
        seq![]
    } else {
        let f = fields(ls.last());
        if f.len() >= 4 {
            rows(ls.drop_last()).push(f.subrange(0, 4))
        } else {
            rows(ls.drop_last())
        }
    }
}

/// The rows of the mount table text `t`.
pub open spec fn table_rows(t: Seq<char>) -> Seq<Seq<Seq<char>>> {
    rows(lines(t))
}

/// Index of the first `c` in `s`, or the length of `s` when there is none.
pub open spec fn first_index(s: Seq<char>, c: char) -> int
    decreases s.len(),
{
    if s.len() == 0 {
        0
    } else if s[0] == c {
        0
    } else {
        1 + first_index(s.drop_first(), c)
    }
}

/// An option as a key and, for `key=value` options, the value.
pub open spec fn parse_option(p: Seq<char>) -> (Seq<char>, Option<Seq<char>>) {
    let i = first_index(p, '=');
    if i < p.len() {
        (p.subrange(0, i), Some(p.subrange(i + 1, p.len() as int)))
    } else {
        (p, None)
    }
}

pub open spec fn option_view(o: MountOption) -> (Seq<char>, Option<Seq<char>>) {
    match o {
        MountOption::Flag(f) => (f@, None),
        MountOption::Option(k, v) => (k@, Some(v@)),
    }
}

/// The options of an option string.
pub open spec fn options_of(opts: Seq<char>) -> Seq<(Seq<char>, Option<Seq<char>>)> {
    split(opts, ',').map_values(|p: Seq<char>| parse_option(p))
}

/// The value of the last `key=value` option with this key.
pub open spec fn option_value(
    opts: Seq<(Seq<char>, Option<Seq<char>>)>,
    key: Seq<char>,
) -> Option<Seq<char>>
    decreases opts.len(),
{
    if opts.len() == 0 {
        None
    } else if opts.last().0 == key && opts.last().1 is Some {
        opts.last().1
    } else {
        option_value(opts.drop_last(), key)
    }
}

/// Index of the last row mounted at `mp`, if any.
pub open spec fn last_at(rs: Seq<Seq<Seq<char>>>, mp: Seq<char>) -> Option<int>
    decreases rs.len(),
{
    if rs.len() == 0 {
        None
    } else if rs.last()[1] == mp {
        Some(rs.len() - 1)
    } else {
        last_at(rs.drop_last(), mp)
    }
}

/// Index of the first row whose column `col` equals `v`, if any.
pub open spec fn first_with(rs: Seq<Seq<Seq<char>>>, col: int, v: Seq<char>) -> Option<int> {
    if exists|i: int| 0 <= i < rs.len() && #[trigger] rs[i][col] == v {
        Some(choose|i: int| 0 <= i < rs.len() && #[trigger] rs[i][col] == v && forall|j: int| 0 <= j < i ==> rs[j][col] != v)
    } else {
        None
    }
}

impl View for MountTable {
    type V = Seq<char>;

    closed spec fn view(&self) -> Seq<char> {
        self.data@
    }
}

/// Index of the first `c` in `s`, or its length.
pub fn find_char(s: &Vec<char>, c: char) -> (r: usize)
    ensures
        r as int == first_index(s@, c),
        r <= s@.len(),
        forall|k: int| 0 <= k < r ==> s@[k] != c,
        r < s@.len() ==> s@[r as int] == c,
{
    let mut i: usize = 0;
    assert(s@.subrange(0, s@.len() as int) == s@);
    while i < s.len() && s[i] != c
        invariant
            i <= s@.len(),
            forall|k: int| 0 <= k < i ==> s@[k] != c,
            first_index(s@, c) == i + first_index(s@.subrange(i as int, s@.len() as int), c),
        decreases s@.len() - i,
    {
        proof {
            let t = s@.subrange(i as int, s@.len() as int);
            assert(t.drop_first() == s@.subrange(i + 1, s@.len() as int));
        }
        i = i + 1;
    }
    i
}

impl MountOption {
    /// Returns true if this is a flag
    pub fn is_flag(&self) -> (r: bool)
        ensures
            r == (self is Flag),
    {
        match self {
            MountOption::Flag(_) => true,
            MountOption::Option(_, _) => false,
        }
    }

    /// Returns true if this is a key=value mapping
    pub fn is_option(&self) -> (r: bool)
        ensures
            r == (self is Option),
    {
        !self.is_flag()
    }
}

fn parse_one_option(p: &Vec<char>) -> (r: MountOption)
    ensures
        option_view(r) == parse_option(p@),
{
    let i = find_char(p, '=');
    if i < p.len() {
        let k = copy_range(p, 0, i);
        let v = copy_range(p, i + 1, p.len());
        MountOption::Option(string_from(k.as_slice()), string_from(v.as_slice()))
    } else {
        MountOption::Flag(string_from(p.as_slice()))
    }
}

impl Mount {
    /// The typed options of this mount, in order.
    pub fn options(&self) -> (r: Vec<MountOption>)
        ensures
            r@.map_values(|o: MountOption| option_view(o)) == options_of(self.opts@),
    {
        let chars = chars_of(self.opts.as_str());
        let parts = split_chars(&chars, ',');
        let mut r: Vec<MountOption> = Vec::new();
        let mut i: usize = 0;
        while i < parts.len()
            invariant
                i <= parts@.len(),
                views(parts@) == split(chars@, ','),
                chars@ == self.opts@,
                r@.len() == i,
                forall|k: int|
                    0 <= k < i ==> option_view(#[trigger] r@[k]) == parse_option(parts@[k]@),
            decreases parts@.len() - i,
        {
            let o = parse_one_option(&parts[i]);
            r.push(o);
            i = i + 1;
        }
        assert(r@.map_values(|o: MountOption| option_view(o)) =~= options_of(self.opts@));
        r
    }

    /// The value of the last `key=value` option with this key.
    pub fn option(&self, key: &str) -> (r: Option<String>)
        ensures
            r matches Some(v) ==> option_value(options_of(self.opts@), key@) == Some(v@),
            r is None ==> option_value(options_of(self.opts@), key@) is None,
    {
        let opts = self.options();
        let key_chars = chars_of(key);
        let ghost all = opts@.map_values(|o: MountOption| option_view(o));
        let mut found: Option<String> = None;
        let mut i: usize = 0;
        while i < opts.len()
            invariant
                i <= opts@.len(),
                all == opts@.map_values(|o: MountOption| option_view(o)),
                key_chars@ == key@,
                found matches Some(v) ==> option_value(all.subrange(0, i as int), key@) == Some(
                    v@,
                ),
                found is None ==> option_value(all.subrange(0, i as int), key@) is None,
            decreases opts@.len() - i,
        {
            proof {
                assert(all.subrange(0, i + 1).drop_last() == all.subrange(0, i as int));
                assert(all.subrange(0, i + 1).last() == option_view(opts@[i as int]));
            }
            match &opts[i] {
                MountOption::Option(k, v) => {
                    let kc = chars_of(k.as_str());
                    if chars_eq(&kc, &key_chars) {
                        found = Some(v.clone());
                    }
                },
                MountOption::Flag(_) => {},
            }
            i = i + 1;
        }
        assert(all.subrange(0, opts@.len() as int) == all);
        found
    }
}

fn row_of(f: &Vec<Vec<char>>) -> (r: Mount)
    requires
        f@.len() >= 4,
    ensures
        mount_view(r) == views(f@).subrange(0, 4),
{
    let r = Mount {
        device: string_from(f[0].as_slice()),
        mountpoint: string_from(f[1].as_slice()),
        filesystem: string_from(f[2].as_slice()),
        opts: string_from(f[3].as_slice()),
    };
    assert(mount_view(r) =~= views(f@).subrange(0, 4));
    r
}

impl MountTable {
    /// A table over the given text.
    pub fn new(data: String) -> (r: Self)
        ensures
            r@ == data@,
    {
        Self { data }
    }

    /// All mounts of the table, in order.
    pub fn iter(&self) -> (r: Vec<Mount>)
        ensures
            r@.map_values(|m: Mount| mount_view(m)) == table_rows(self@),
    {
        let chars = chars_of(self.data.as_str());
        let ls = lines_of(&chars);
        let mut r: Vec<Mount> = Vec::new();
        let mut i: usize = 0;
        while i < ls.len()
            invariant
                i <= ls@.len(),
                views(ls@) == lines(self@),
                r@.map_values(|m: Mount| mount_view(m)) == rows(views(ls@).subrange(0, i as int)),
            decreases ls@.len() - i,
        {
            let f = fields_of(&ls[i]);
            proof {
                assert(views(ls@).subrange(0, i + 1).drop_last() == views(ls@).subrange(
                    0,
                    i as int,
                ));
                assert(views(ls@).subrange(0, i + 1).last() == ls@[i as int]@);
            }
            if f.len() >= 4 {
                let m = row_of(&f);
                r.push(m);
                assert(r@.map_values(|m: Mount| mount_view(m)) =~= rows(
                    views(ls@).subrange(0, i + 1),
                ));
            }
            i = i + 1;
        }
        assert(views(ls@).subrange(0, ls@.len() as int) == views(ls@));
        r
    }

    /// The last mount at the given mountpoint, whose options apply there.
    pub fn mount_at(&self, mountpoint: &str) -> (r: Option<Mount>)
        ensures
            r matches Some(m) ==> (last_at(table_rows(self@), mountpoint@) matches Some(i)
                && mount_view(m) == table_rows(self@)[i]),
            r is None ==> last_at(table_rows(self@), mountpoint@) is None,
    {
        let mut all = self.iter();
        let ghost rs = table_rows(self@);
        let mp = chars_of(mountpoint);
        let mut n = all.len();
        assert(rs.subrange(0, rs.len() as int) == rs);
        while n > 0
            invariant
                n <= all@.len(),
                all@.map_values(|m: Mount| mount_view(m)) == rs,
                rs == table_rows(self@),
                mp@ == mountpoint@,
                last_at(rs, mp@) == last_at(rs.subrange(0, n as int), mp@),
            decreases n,
        {
            let c = chars_of(all[n - 1].mountpoint.as_str());
            proof {
                assert(rs.subrange(0, n as int).drop_last() == rs.subrange(0, n - 1));
                assert(rs[n - 1] == mount_view(all@[n - 1]));
            }
            if chars_eq(&c, &mp) {
                let m = all.remove(n - 1);
                proof {
                    assert(mount_view(m)[1] == m.mountpoint@);
                    assert(rs.subrange(0, n as int).last() == rs[n - 1]);
                    assert(last_at(rs.subrange(0, n as int), mp@) == Some(n - 1));
                }
                return Some(m);
            }
            n = n - 1;
        }
        None
    }

    /// The first mount whose column `col` (0 device, 1 mountpoint, 2
    /// filesystem, 3 options) equals `v`.
    pub fn first_with(&self, col: usize, v: &str) -> (r: Option<Mount>)
        requires
            col < 4,
        ensures
            r matches Some(m) ==> (first_with(table_rows(self@), col as int, v@) matches Some(i)
                && mount_view(m) == table_rows(self@)[i]),
            r is None ==> first_with(table_rows(self@), col as int, v@) is None,
    {
        let mut all = self.iter();
        let ghost rs = table_rows(self@);
        let want = chars_of(v);
        let mut i: usize = 0;
        while i < all.len()
            invariant
                i <= all@.len(),
                all@.map_values(|m: Mount| mount_view(m)) == rs,
                rs == table_rows(self@),
                want@ == v@,
                col < 4,
                forall|j: int| 0 <= j < i ==> rs[j][col as int] != v@,
            decreases all@.len() - i,
        {
            let c = if col == 0 {
                chars_of(all[i].device.as_str())
            } else if col == 1 {
                chars_of(all[i].mountpoint.as_str())
            } else if col == 2 {
                chars_of(all[i].filesystem.as_str())
            } else {
                chars_of(all[i].opts.as_str())
            };
            assert(rs[i as int] == mount_view(all@[i as int]));
            assert(mount_view(all@[i as int])[0] == all@[i as int].device@);
            assert(mount_view(all@[i as int])[1] == all@[i as int].mountpoint@);
            assert(mount_view(all@[i as int])[2] == all@[i as int].filesystem@);
            assert(mount_view(all@[i as int])[3] == all@[i as int].opts@);
            if chars_eq(&c, &want) {
                let m = all.remove(i);
                proof {
                    assert(0 <= i < rs.len() && rs[i as int][col as int] == v@ && forall|j: int|
                        0 <= j < i ==> rs[j][col as int] != v@);
                    let k = choose|k: int|
                        0 <= k < rs.len() && #[trigger] rs[k][col as int] == v@ && forall|j: int|
                            0 <= j < k ==> rs[j][col as int] != v@;
                    assert(rs[i as int][col as int] == v@);
                    if k < i {
                    } else if k > i {
                        assert(rs[i as int][col as int] != v@);
                    }
                }
                return Some(m);
            }
            i = i + 1;
        }
        None
    }
}

} // verus!
