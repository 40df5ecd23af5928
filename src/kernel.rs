//! Kernels and their auxiliary files, discovered from a list of paths under
//! `/usr/lib/kernel` according to the naming schema of the distribution.

use crate::mtab::{find_char, first_index};
use crate::order::{lemma_lex_antisym, lemma_lex_total, lex_le, lex_le_chars, lex_lt};
use crate::os_release::OsRelease;
use crate::path::{base_name, dir_name, file_name, lower_of, lowercase, parent};
use crate::text::{append_chars, chars_eq, chars_of, copy_range, ends_with, starts_with, string_from};
use vstd::prelude::*;

verus! {

/// Denotes the kind of auxiliary file
#[derive(Debug, Clone, Copy, PartialEq, Eq, Structural)]
pub enum AuxilliaryKind {
    /// A cmdline snippet
    Cmdline,
    /// An initial ramdisk
    InitRD,
    /// System.map file
    SystemMap,
    /// .config file
    Config,
    /// The `boot.json` file
    BootJSON,
}

/// An additional file shipped with a kernel, such as an initrd or a system map.
pub struct AuxilliaryFile {
    pub path: String,
    pub kind: AuxilliaryKind,
}

/// A bootable kernel image with the files that belong to it.
pub struct Kernel {
    /// Matches the `uname -r` of the kernel
    pub version: String,
    /// vmlinuz path
    pub image: String,
    /// All of the initrds
    pub initrd: Vec<AuxilliaryFile>,
    /// Any non-initrd, auxiliary files
    pub extras: Vec<AuxilliaryFile>,
    /// Recorded variant type
    pub variant: Option<String>,
}

/// The contents of a `boot.json` file.
pub struct BootJSON {
    /// Kernel's package name
    pub name: String,
    /// Kernel's version string (uname -r)
    pub version: String,
    /// Kernel's variant id
    pub variant: String,
}

/// The naming schema of installed kernels.
pub enum Schema {
    /// Fixed vendor namespace: `<namespace>.<variant>.<version>-<release>`
    Legacy { namespace: String, os_release: OsRelease },
    /// Versioned directories holding a `vmlinuz`
    Blsforme { os_release: OsRelease },
}

pub type AuxView = (Seq<char>, AuxilliaryKind);

pub open spec fn aux_view(a: AuxilliaryFile) -> AuxView {
    (a.path@, a.kind)
}

pub open spec fn aux_views(s: Seq<AuxilliaryFile>) -> Seq<AuxView> {
    s.map_values(|a: AuxilliaryFile| aux_view(a))
}

/// Sorted case-insensitively by path.
pub open spec fn aux_sorted(s: Seq<AuxView>) -> bool {
    forall|i: int| 0 <= i < s.len() - 1 ==> lex_le(lower_of(#[trigger] s[i].0), lower_of(s[i + 1].0))
}

/// `s` holds exactly the files of `want`, sorted case-insensitively by path.
pub open spec fn sorted_files(s: Seq<AuxilliaryFile>, want: Seq<AuxView>) -> bool {
    aux_sorted(aux_views(s)) && aux_views(s) == stable_sorted(want)
}

/// Where `x` goes in `s`: after every file whose lower-case path sorts
/// before or equal to that of `x`, up to the first that sorts after.
pub open spec fn insert_pos(s: Seq<AuxView>, x: AuxView) -> int
    decreases s.len(),
{
    if s.len() == 0 {
        0
    } else if !lex_le(lower_of(s[0].0), lower_of(x.0)) {
        0
    } else {
        1 + insert_pos(s.drop_first(), x)
    }
}

/// `want` sorted case-insensitively by path by insertion, in order; files
/// whose lower-case paths are equal keep their order in `want`.
pub open spec fn stable_sorted(want: Seq<AuxView>) -> Seq<AuxView>
    decreases want.len(),
{
    if want.len() == 0 {
        seq![]
    } else {
        let s = stable_sorted(want.drop_last());
        s.insert(insert_pos(s, want.last()), want.last())
    }
}

pub open spec fn path_views(paths: Seq<String>) -> Seq<Seq<char>> {
    paths.map_values(|p: String| p@)
}

/// Index of the first path whose final component is `name`.
pub open spec fn first_named(paths: Seq<Seq<char>>, name: Seq<char>) -> Option<int> {
    if exists|i: int| 0 <= i < paths.len() && base_name(#[trigger] paths[i]) == name {
        Some(
            choose|i: int|
                0 <= i < paths.len() && base_name(#[trigger] paths[i]) == name && forall|j: int|
                    0 <= j < i ==> base_name(paths[j]) != name,
        )
    } else {
        None
    }
}

/// The file found by [`first_named`], as a one-element list of that kind.
pub open spec fn found(paths: Seq<Seq<char>>, name: Seq<char>, kind: AuxilliaryKind) -> Seq<
    AuxView,
> {
    match first_named(paths, name) {
        Some(i) => seq![(paths[i], kind)],
        None => seq![],
    }
}

/// Variant and version of a legacy kernel image name
/// `<namespace>.<variant>.<version>-<release>`.
pub open spec fn legacy_split(ns: Seq<char>, name: Seq<char>) -> Option<(Seq<char>, Seq<char>)> {
    let pre = ns + seq!['.'];
    if !starts_with(name, pre) {
        None
    } else {
        let rest = name.subrange(pre.len() as int, name.len() as int);
        let i = first_index(rest, '.');
        if i >= rest.len() {
            None
        } else {
            let v = rest.subrange(i + 1, rest.len() as int);
            if first_index(v, '-') >= v.len() {
                None
            } else {
                Some((rest.subrange(0, i), v))
            }
        }
    }
}

pub open spec fn legacy_version(ns: Seq<char>, paths: Seq<Seq<char>>, i: int) -> Option<Seq<char>> {
    match legacy_split(ns, base_name(paths[i])) {
        Some(p) => Some(p.1),
        None => None,
    }
}

/// The legacy kernel made from the image at `paths[i]`: its version and
/// variant come from the name, and its companions are the first paths named
/// `System.map-<version>.<variant>`, `cmdline-<version>.<variant>`,
/// `config-<version>.<variant>` and `initrd-<namespace>.<variant>.<version>`.
pub open spec fn is_legacy_kernel(k: Kernel, ns: Seq<char>, paths: Seq<Seq<char>>, i: int) -> bool {
    match legacy_split(ns, base_name(paths[i])) {
        None => false,
        Some(p) => {
            let (variant, v) = p;
            let tail = v + seq!['.'] + variant;
            &&& k.version@ == v
            &&& k.image@ == paths[i]
            &&& k.variant matches Some(s) && s@ == variant
            &&& aux_views(k.initrd@) == found(
                paths,
                "initrd-"@ + ns + seq!['.'] + variant + seq!['.'] + v,
                AuxilliaryKind::InitRD,
            )
            &&& sorted_files(
                k.extras@,
                found(paths, "System.map-"@ + tail, AuxilliaryKind::SystemMap) + found(
                    paths,
                    "cmdline-"@ + tail,
                    AuxilliaryKind::Cmdline,
                ) + found(paths, "config-"@ + tail, AuxilliaryKind::Config),
            )
        },
    }
}

/// Strictly increasing versions.
pub open spec fn versions_sorted(ks: Seq<Kernel>) -> bool {
    forall|k: int| 0 <= k < ks.len() - 1 ==> lex_lt(#[trigger] ks[k].version@, ks[k + 1].version@)
}

fn index_of_name(paths: &Vec<String>, name: &Vec<char>) -> (r: Option<usize>)
    ensures
        match r {
            Some(i) => i < paths@.len() && first_named(path_views(paths@), name@) == Some(i as int),
            None => first_named(path_views(paths@), name@) is None,
        },
{
    let ghost pv = path_views(paths@);
    let mut i: usize = 0;
    while i < paths.len()
        invariant
            i <= paths@.len(),
            pv == path_views(paths@),
            forall|j: int| 0 <= j < i ==> base_name(#[trigger] pv[j]) != name@,
        decreases paths@.len() - i,
    {
        let b = file_name(paths[i].as_str());
        let bc = chars_of(b.as_str());
        assert(pv[i as int] == paths@[i as int]@);
        if chars_eq(&bc, name) {
            proof {
                assert(0 <= i < pv.len() && base_name(pv[i as int]) == name@ && forall|j: int|
                    0 <= j < i ==> base_name(pv[j]) != name@);
                let k = choose|k: int|
                    0 <= k < pv.len() && base_name(#[trigger] pv[k]) == name@ && forall|j: int|
                        0 <= j < k ==> base_name(pv[j]) != name@;
                if k < i {
                } else if k > i {
                    assert(base_name(pv[i as int]) != name@);
                }
            }
            return Some(i);
        }
        i = i + 1;
    }
    None
}

fn found_file(paths: &Vec<String>, name: &Vec<char>, kind: AuxilliaryKind, into: &mut Vec<AuxilliaryFile>)
    ensures
        aux_views(final(into)@) == aux_views(old(into)@) + found(path_views(paths@), name@, kind),
{
    match index_of_name(paths, name) {
        Some(i) => {
            into.push(AuxilliaryFile { path: paths[i].clone(), kind });
            assert(path_views(paths@)[i as int] == paths@[i as int]@);
            assert(aux_views(into@) =~= aux_views(old(into)@) + found(path_views(paths@), name@, kind));
        },
        None => {
            assert(aux_views(into@) =~= aux_views(old(into)@) + found(path_views(paths@), name@, kind));
        },
    }
}

/// Sorts files case-insensitively by path; files with equal keys keep their order.
fn sort_files(items: Vec<AuxilliaryFile>) -> (r: Vec<AuxilliaryFile>)
    ensures
        sorted_files(r@, aux_views(items@)),
{
    let ghost want = aux_views(items@);
    let n = items.len();
    let mut rest = items;
    let mut r: Vec<AuxilliaryFile> = Vec::new();
    let mut keys: Vec<Vec<char>> = Vec::new();
    let mut i: usize = 0;
    while i < n
        invariant
            i <= n == want.len(),
            aux_views(rest@) == want.subrange(i as int, n as int),
            aux_views(r@) == stable_sorted(want.subrange(0, i as int)),
            keys@.len() == r@.len(),
            forall|j: int| 0 <= j < r@.len() ==> (#[trigger] keys@[j])@ == lower_of(r@[j].path@),
            forall|j: int| 0 <= j < r@.len() - 1 ==> lex_le((#[trigger] keys@[j])@, keys@[j + 1]@),
        decreases n - i,
    {
        let ghost before_rest = rest@;
        proof {
            assert(aux_views(before_rest).len() == n - i);
        }
        let x = rest.remove(0);
        proof {
            assert(aux_view(x) == aux_views(before_rest)[0]);
            assert(aux_view(x) == want[i as int]);
            assert(rest@ == before_rest.remove(0));
            assert forall|j: int| 0 <= j < aux_views(rest@).len() implies aux_views(rest@)[j]
                == want.subrange(i + 1, n as int)[j] by {
                assert(rest@[j] == before_rest[j + 1]);
                assert(aux_views(before_rest)[j + 1] == want[i + 1 + j]);
            }
            assert(aux_views(rest@) =~= want.subrange(i + 1, n as int));
        }
        let key_s = lowercase(x.path.as_str());
        let key = chars_of(key_s.as_str());
        let ghost v = aux_views(r@);
        let mut pos: usize = 0;
        assert(v.subrange(0, v.len() as int) == v);
        while pos < r.len() && lex_le_chars(&keys[pos], &key)
            invariant
                pos <= r@.len(),
                keys@.len() == r@.len(),
                v == aux_views(r@),
                key@ == lower_of(x.path@),
                forall|j: int| 0 <= j < r@.len() ==> (#[trigger] keys@[j])@ == lower_of(r@[j].path@),
                forall|j: int| 0 <= j < pos ==> lex_le((#[trigger] keys@[j])@, key@),
                insert_pos(v, aux_view(x)) == pos + insert_pos(
                    v.subrange(pos as int, v.len() as int),
                    aux_view(x),
                ),
            decreases r@.len() - pos,
        {
            proof {
                let t = v.subrange(pos as int, v.len() as int);
                assert(t[0] == aux_view(r@[pos as int]));
                assert(t.drop_first() == v.subrange(pos + 1, v.len() as int));
            }
            pos = pos + 1;
        }
        proof {
            if pos < r@.len() {
                lemma_lex_total(keys@[pos as int]@, key@);
                let t = v.subrange(pos as int, v.len() as int);
                assert(t[0] == aux_view(r@[pos as int]));
            }
            assert(insert_pos(v, aux_view(x)) == pos);
            assert(want.subrange(0, i + 1).drop_last() == want.subrange(0, i as int));
            assert(want.subrange(0, i + 1).last() == aux_view(x));
        }
        let ghost old_r = r@;
        let ghost old_keys = keys@;
        r.insert(pos, x);
        keys.insert(pos, key);
        proof {
            assert(r@ == old_r.insert(pos as int, x));
            assert(aux_views(r@) =~= aux_views(old_r).insert(pos as int, aux_view(x)));
            assert forall|j: int| 0 <= j < r@.len() implies (#[trigger] keys@[j])@ == lower_of(
                r@[j].path@,
            ) by {
                if j < pos {
                    assert(keys@[j] == old_keys[j] && r@[j] == old_r[j]);
                } else if j > pos {
                    assert(keys@[j] == old_keys[j - 1] && r@[j] == old_r[j - 1]);
                }
            }
            assert forall|j: int| 0 <= j < r@.len() - 1 implies lex_le(
                (#[trigger] keys@[j])@,
                keys@[j + 1]@,
            ) by {
                if j < pos - 1 {
                    assert(keys@[j] == old_keys[j] && keys@[j + 1] == old_keys[j + 1]);
                } else if j == pos - 1 {
                    assert(keys@[j] == old_keys[j]);
                } else if j == pos {
                    assert(keys@[j + 1] == old_keys[j]);
                } else {
                    assert(keys@[j] == old_keys[j - 1] && keys@[j + 1] == old_keys[j]);
                }
            }
        }
        i = i + 1;
    }
    proof {
        assert(want.subrange(0, n as int) == want);
        assert forall|j: int| 0 <= j < aux_views(r@).len() - 1 implies lex_le(
            lower_of(#[trigger] aux_views(r@)[j].0),
            lower_of(aux_views(r@)[j + 1].0),
        ) by {
            assert(keys@[j]@ == lower_of(r@[j].path@));
            assert(keys@[j + 1]@ == lower_of(r@[j + 1].path@));
        }
    }
    r
}

fn legacy_split_exec(ns: &Vec<char>, name: &Vec<char>) -> (r: Option<(Vec<char>, Vec<char>)>)
    ensures
        match r {
            Some(p) => legacy_split(ns@, name@) == Some((p.0@, p.1@)),
            None => legacy_split(ns@, name@) is None,
        },
{
    let mut pre = ns.clone();
    pre.push('.');
    assert(pre@ == ns@ + seq!['.']);
    if !crate::text::has_prefix(name, &pre) {
        return None;
    }
    let rest = copy_range(name, pre.len(), name.len());
    let i = find_char(&rest, '.');
    if i >= rest.len() {
        return None;
    }
    let v = copy_range(&rest, i + 1, rest.len());
    let d = find_char(&v, '-');
    if d >= v.len() {
        return None;
    }
    Some((copy_range(&rest, 0, i), v))
}

/// The legacy kernel for the image at `paths[i]`, if its name fits the schema.
fn legacy_kernel(ns: &Vec<char>, paths: &Vec<String>, i: usize) -> (r: Option<Kernel>)
    requires
        i < paths@.len(),
    ensures
        match r {
            Some(k) => is_legacy_kernel(k, ns@, path_views(paths@), i as int),
            None => legacy_split(ns@, base_name(path_views(paths@)[i as int])) is None,
        },
{
    let ghost pv = path_views(paths@);
    let name_s = file_name(paths[i].as_str());
    let name = chars_of(name_s.as_str());
    assert(pv[i as int] == paths@[i as int]@);
    match legacy_split_exec(ns, &name) {
        None => None,
        Some((variant, v)) => {
            let variant_s = string_from(variant.as_slice());
            let v_s = string_from(v.as_slice());
            proof {
                reveal_strlit("initrd-");
                reveal_strlit("System.map-");
                reveal_strlit("cmdline-");
                reveal_strlit("config-");
            }
            let mut tail = copy_range(&v, 0, v.len());
            tail.push('.');
            append_chars(&mut tail, &variant);
            let mut initrd_name = chars_of("initrd-");
            append_chars(&mut initrd_name, ns);
            initrd_name.push('.');
            append_chars(&mut initrd_name, &variant);
            initrd_name.push('.');
            append_chars(&mut initrd_name, &v);
            let mut sysmap = chars_of("System.map-");
            append_chars(&mut sysmap, &tail);
            let mut cmdline = chars_of("cmdline-");
            append_chars(&mut cmdline, &tail);
            let mut config = chars_of("config-");
            append_chars(&mut config, &tail);
            let mut initrd: Vec<AuxilliaryFile> = Vec::new();
            found_file(paths, &initrd_name, AuxilliaryKind::InitRD, &mut initrd);
            let mut extras: Vec<AuxilliaryFile> = Vec::new();
            found_file(paths, &sysmap, AuxilliaryKind::SystemMap, &mut extras);
            found_file(paths, &cmdline, AuxilliaryKind::Cmdline, &mut extras);
            found_file(paths, &config, AuxilliaryKind::Config, &mut extras);
            let extras = sort_files(extras);
            proof {
                assert(aux_views(initrd@) =~= found(pv, initrd_name@, AuxilliaryKind::InitRD));
                assert(tail@ =~= v@ + seq!['.'] + variant@);
                assert(initrd_name@ =~= "initrd-"@ + ns@ + seq!['.'] + variant@ + seq!['.'] + v@);
                assert(sysmap@ =~= "System.map-"@ + tail@);
                assert(cmdline@ =~= "cmdline-"@ + tail@);
                assert(config@ =~= "config-"@ + tail@);
            }
            let k = Kernel {
                version: v_s,
                image: paths[i].clone(),
                initrd,
                extras,
                variant: Some(variant_s),
            };
            assert(k.image@ == pv[i as int]);
            Some(k)
        },
    }
}


/// Version of the modern kernel whose image is `paths[i]`: the name of the
/// directory holding a `vmlinuz`.
pub open spec fn modern_version(paths: Seq<Seq<char>>, i: int) -> Option<Seq<char>> {
    let p = paths[i];
    if base_name(p) == "vmlinuz"@ && base_name(dir_name(p)).len() > 0 {
        Some(base_name(dir_name(p)))
    } else {
        None
    }
}

/// The kind of an asset of a modern kernel, by file name.
pub open spec fn classify(name: Seq<char>) -> Option<AuxilliaryKind> {
    if name == "System.map"@ {
        Some(AuxilliaryKind::SystemMap)
    } else if name == "boot.json"@ {
        Some(AuxilliaryKind::BootJSON)
    } else if name == "config"@ {
        Some(AuxilliaryKind::Config)
    } else if ends_with(name, ".initrd"@) {
        Some(AuxilliaryKind::InitRD)
    } else if ends_with(name, ".cmdline"@) {
        Some(AuxilliaryKind::Cmdline)
    } else {
        None
    }
}

/// `q` is the directory `d` or lies below it.
pub open spec fn under(q: Seq<char>, d: Seq<char>) -> bool {
    q == d || starts_with(q, d + seq!['/'])
}

/// `paths[j]` is the first occurrence of that path.
pub open spec fn first_occurrence(paths: Seq<Seq<char>>, j: int) -> bool {
    forall|l: int| 0 <= l < j ==> paths[l] != paths[j]
}

/// The asset of the kernel in directory `d` with version `v` at `paths[j]`, if
/// that path is one: a classified file under `d` other than the image and
/// the directory itself, counted once.
pub open spec fn asset_of(paths: Seq<Seq<char>>, d: Seq<char>, v: Seq<char>, j: int) -> Option<
    AuxView,
> {
    let q = paths[j];
    let name = base_name(q);
    if first_occurrence(paths, j) && name != "vmlinuz"@ && under(q, d) && name != v {
        match classify(name) {
            Some(kind) => Some((q, kind)),
            None => None,
        }
    } else {
        None
    }
}

/// The assets among the first `n` paths that are initrds (`initrd`) or not.
pub open spec fn assets(
    paths: Seq<Seq<char>>,
    d: Seq<char>,
    v: Seq<char>,
    n: int,
    initrd: bool,
) -> Seq<AuxView>
    decreases n,
{
    if n <= 0 {
        seq![]
    } else {
        match asset_of(paths, d, v, n - 1) {
            Some(a) => if (a.1 == AuxilliaryKind::InitRD) == initrd {
                assets(paths, d, v, n - 1, initrd).push(a)
            } else {
                assets(paths, d, v, n - 1, initrd)
            },
            None => assets(paths, d, v, n - 1, initrd),
        }
    }
}

/// The modern kernel made from the image at `paths[i]`.
pub open spec fn is_modern_kernel(k: Kernel, paths: Seq<Seq<char>>, i: int) -> bool {
    match modern_version(paths, i) {
        None => false,
        Some(v) => {
            let d = dir_name(paths[i]);
            &&& k.version@ == v
            &&& k.image@ == paths[i]
            &&& k.variant is None
            &&& sorted_files(k.initrd@, assets(paths, d, v, paths.len() as int, true))
            &&& sorted_files(k.extras@, assets(paths, d, v, paths.len() as int, false))
        },
    }
}

/// The version that `paths[i]` yields under the schema with namespace `ns`
/// (legacy) or without one (modern).
#[verifier::opaque]
pub open spec fn version_at(ns: Option<Seq<char>>, paths: Seq<Seq<char>>, i: int) -> Option<
    Seq<char>,
> {
    match ns {
        Some(n) => legacy_version(n, paths, i),
        None => modern_version(paths, i),
    }
}

#[verifier::opaque]
pub open spec fn kernel_at(ns: Option<Seq<char>>, k: Kernel, paths: Seq<Seq<char>>, i: int) -> bool {
    match ns {
        Some(n) => is_legacy_kernel(k, n, paths, i),
        None => is_modern_kernel(k, paths, i),
    }
}

/// Among the first `n` paths, `paths[i]` yields a version that no later one yields.
pub open spec fn wins(ns: Option<Seq<char>>, paths: Seq<Seq<char>>, i: int, n: int) -> bool {
    &&& 0 <= i < n
    &&& version_at(ns, paths, i) is Some
    &&& forall|j: int| i < j < n ==> version_at(ns, paths, j) != version_at(ns, paths, i)
}

/// Some kernel of `ks` is made from `paths[i]`.
pub open spec fn has_kernel_from(ns: Option<Seq<char>>, paths: Seq<Seq<char>>, ks: Seq<Kernel>, i: int) -> bool {
    exists|k: int| 0 <= k < ks.len() && kernel_at(ns, ks[k], paths, i)
}

/// `ks` are the kernels found in `paths`: one per version, made from the
/// last image of that version, in increasing order of version.
pub open spec fn discovered(ns: Option<Seq<char>>, paths: Seq<Seq<char>>, ks: Seq<Kernel>) -> bool {
    &&& versions_sorted(ks)
    &&& forall|k: int| 0 <= k < ks.len() ==> has_origin(ns, paths, #[trigger] ks[k], paths.len() as int)
    &&& forall|i: int| #[trigger] wins(ns, paths, i, paths.len() as int) ==> has_kernel_from(ns, paths, ks, i)
}

proof fn lemma_kernel_version(ns: Option<Seq<char>>, k: Kernel, paths: Seq<Seq<char>>, i: int)
    requires
        kernel_at(ns, k, paths, i),
    ensures
        version_at(ns, paths, i) == Some(k.version@),
{
    reveal(kernel_at);
    reveal(version_at);
}

/// Inserts `k` in version order, replacing the kernel of the same version.
fn upsert(ks: &mut Vec<Kernel>, k: Kernel)
    requires
        versions_sorted(old(ks)@),
    ensures
        versions_sorted(final(ks)@),
        exists|j: int| 0 <= j < final(ks)@.len() && final(ks)@[j] == k,
        forall|j: int|
            0 <= j < final(ks)@.len() ==> #[trigger] final(ks)@[j] == k || exists|m: int|
                0 <= m < old(ks)@.len() && old(ks)@[m] == final(ks)@[j] && old(ks)@[m].version@
                    != k.version@,
        forall|m: int|
            0 <= m < old(ks)@.len() && (#[trigger] old(ks)@[m]).version@ != k.version@
                ==> exists|j: int| 0 <= j < final(ks)@.len() && final(ks)@[j] == old(ks)@[m],
{
    let kv = chars_of(k.version.as_str());
    let mut pos: usize = 0;
    while pos < ks.len()
        invariant
            pos <= ks@.len(),
            ks@ == old(ks)@,
            versions_sorted(ks@),
            kv@ == k.version@,
            forall|j: int| 0 <= j < pos ==> lex_lt((#[trigger] ks@[j]).version@, kv@),
        ensures
            pos <= ks@.len(),
            ks@ == old(ks)@,
            forall|j: int| 0 <= j < pos ==> lex_lt((#[trigger] ks@[j]).version@, kv@),
            pos < ks@.len() ==> !lex_lt(ks@[pos as int].version@, kv@),
        decreases ks@.len() - pos,
    {
        let pv = chars_of(ks[pos].version.as_str());
        if !(lex_le_chars(&pv, &kv) && !chars_eq(&pv, &kv)) {
            break;
        }
        pos = pos + 1;
    }
    let ghost old_ks = ks@;
    if pos < ks.len() && ks[pos].version == k.version {
        ks[pos] = k;
        proof {
            assert(ks@ == old_ks.update(pos as int, k));
            assert forall|j: int| 0 <= j < ks@.len() - 1 implies lex_lt(
                (#[trigger] ks@[j]).version@,
                ks@[j + 1].version@,
            ) by {
                assert(old_ks[j].version@ == ks@[j].version@);
                assert(old_ks[j + 1].version@ == ks@[j + 1].version@);
            }
            assert forall|j: int| 0 <= j < ks@.len() implies #[trigger] ks@[j] == k || exists|m: int|
                0 <= m < old_ks.len() && old_ks[m] == ks@[j] && old_ks[m].version@ != k.version@ by {
                if j != pos {
                    assert(old_ks[j] == ks@[j]);
                    if old_ks[j].version@ == k.version@ {
                        lemma_sorted_distinct(old_ks, j, pos as int);
                    }
                }
            }
            assert forall|m: int|
                0 <= m < old_ks.len() && (#[trigger] old_ks[m]).version@ != k.version@ implies exists|j: int|
                0 <= j < ks@.len() && ks@[j] == old_ks[m] by {
                assert(ks@[m] == old_ks[m]);
            }
            assert(ks@[pos as int] == k);
        }
    } else {
        proof {
            if pos < old_ks.len() {
                let a = old_ks[pos as int].version@;
                lemma_lex_total(a, k.version@);
            }
        }
        ks.insert(pos, k);
        proof {
            assert(ks@ == old_ks.insert(pos as int, k));
            assert forall|j: int| 0 <= j < ks@.len() - 1 implies lex_lt(
                (#[trigger] ks@[j]).version@,
                ks@[j + 1].version@,
            ) by {
                if j < pos - 1 {
                    assert(ks@[j] == old_ks[j] && ks@[j + 1] == old_ks[j + 1]);
                } else if j == pos - 1 {
                    assert(ks@[j] == old_ks[j]);
                } else if j == pos {
                    assert(ks@[j + 1] == old_ks[j]);
                } else {
                    assert(ks@[j] == old_ks[j - 1] && ks@[j + 1] == old_ks[j]);
                }
            }
            assert forall|j: int| 0 <= j < ks@.len() implies #[trigger] ks@[j] == k || exists|m: int|
                0 <= m < old_ks.len() && old_ks[m] == ks@[j] && old_ks[m].version@ != k.version@ by {
                if j < pos {
                    assert(old_ks[j] == ks@[j]);
                } else if j > pos {
                    assert(old_ks[j - 1] == ks@[j]);
                    if old_ks[j - 1].version@ == k.version@ {
                        if j - 1 > pos {
                            lemma_sorted_after(old_ks, pos as int, j - 1);
                        }
                    }
                }
            }
            assert forall|m: int|
                0 <= m < old_ks.len() && (#[trigger] old_ks[m]).version@ != k.version@ implies exists|j: int|
                0 <= j < ks@.len() && ks@[j] == old_ks[m] by {
                if m < pos {
                    assert(ks@[m] == old_ks[m]);
                } else {
                    assert(ks@[m + 1] == old_ks[m]);
                }
            }
            assert(ks@[pos as int] == k);
        }
    }
}

proof fn lemma_sorted_after(ks: Seq<Kernel>, a: int, b: int)
    requires
        versions_sorted(ks),
        0 <= a < b < ks.len(),
    ensures
        lex_lt(ks[a].version@, ks[b].version@),
    decreases b - a,
{
    if b - a > 1 {
        lemma_sorted_after(ks, a, b - 1);
        crate::order::lemma_lex_trans(ks[a].version@, ks[b - 1].version@, ks[b].version@);
        if ks[a].version@ == ks[b].version@ {
            lemma_lex_antisym(ks[a].version@, ks[b - 1].version@);
        }
    }
}

proof fn lemma_sorted_distinct(ks: Seq<Kernel>, a: int, b: int)
    requires
        versions_sorted(ks),
        0 <= a < ks.len(),
        0 <= b < ks.len(),
        a != b,
    ensures
        ks[a].version@ != ks[b].version@,
{
    if a < b {
        lemma_sorted_after(ks, a, b);
    } else {
        lemma_sorted_after(ks, b, a);
    }
}


fn literal_eq(s: &Vec<char>, lit: &str) -> (r: bool)
    ensures
        r == (s@ == lit@),
{
    let l = chars_of(lit);
    chars_eq(s, &l)
}

fn classify_name(name: &Vec<char>) -> (r: Option<AuxilliaryKind>)
    ensures
        r == classify(name@),
{
    proof {
        reveal_strlit("System.map");
        reveal_strlit("boot.json");
        reveal_strlit("config");
        reveal_strlit(".initrd");
        reveal_strlit(".cmdline");
    }
    if literal_eq(name, "System.map") {
        Some(AuxilliaryKind::SystemMap)
    } else if literal_eq(name, "boot.json") {
        Some(AuxilliaryKind::BootJSON)
    } else if literal_eq(name, "config") {
        Some(AuxilliaryKind::Config)
    } else if crate::text::has_suffix(name, &chars_of(".initrd")) {
        Some(AuxilliaryKind::InitRD)
    } else if crate::text::has_suffix(name, &chars_of(".cmdline")) {
        Some(AuxilliaryKind::Cmdline)
    } else {
        None
    }
}

fn is_first_occurrence(paths: &Vec<String>, j: usize) -> (r: bool)
    requires
        j < paths@.len(),
    ensures
        r == first_occurrence(path_views(paths@), j as int),
{
    let ghost pv = path_views(paths@);
    let mut l: usize = 0;
    while l < j
        invariant
            l <= j < paths@.len(),
            pv == path_views(paths@),
            forall|m: int| 0 <= m < l ==> pv[m] != pv[j as int],
        decreases j - l,
    {
        assert(pv[l as int] == paths@[l as int]@ && pv[j as int] == paths@[j as int]@);
        if paths[l] == paths[j] {
            return false;
        }
        l = l + 1;
    }
    true
}

/// The modern kernel for the image at `paths[i]`, if it is a `vmlinuz`.
fn modern_kernel(paths: &Vec<String>, i: usize) -> (r: Option<Kernel>)
    requires
        i < paths@.len(),
    ensures
        match r {
            Some(k) => is_modern_kernel(k, path_views(paths@), i as int),
            None => modern_version(path_views(paths@), i as int) is None,
        },
{
    let ghost pv = path_views(paths@);
    assert(pv[i as int] == paths@[i as int]@);
    proof {
        reveal_strlit("vmlinuz");
    }
    let name = chars_of(file_name(paths[i].as_str()).as_str());
    if !literal_eq(&name, "vmlinuz") {
        return None;
    }
    let d = parent(paths[i].as_str());
    let v = file_name(d.as_str());
    if v.as_str().is_empty() {
        return None;
    }
    let dc = chars_of(d.as_str());
    let vc = chars_of(v.as_str());
    let mut below = copy_range(&dc, 0, dc.len());
    below.push('/');
    let mut initrd: Vec<AuxilliaryFile> = Vec::new();
    let mut extras: Vec<AuxilliaryFile> = Vec::new();
    let mut j: usize = 0;
    while j < paths.len()
        invariant
            j <= paths@.len(),
            pv == path_views(paths@),
            dc@ == dir_name(pv[i as int]),
            vc@ == base_name(dir_name(pv[i as int])),
            below@ == dc@ + seq!['/'],
            aux_views(initrd@) == assets(pv, dc@, vc@, j as int, true),
            aux_views(extras@) == assets(pv, dc@, vc@, j as int, false),
        decreases paths@.len() - j,
    {
        assert(pv[j as int] == paths@[j as int]@);
        let q = chars_of(paths[j].as_str());
        let qname = chars_of(file_name(paths[j].as_str()).as_str());
        let first = is_first_occurrence(paths, j);
        let inside = chars_eq(&q, &dc) || crate::text::has_prefix(&q, &below);
        if first && !literal_eq(&qname, "vmlinuz") && inside && !chars_eq(&qname, &vc) {
            match classify_name(&qname) {
                Some(kind) => {
                    let f = AuxilliaryFile { path: paths[j].clone(), kind };
                    if kind == AuxilliaryKind::InitRD {
                        initrd.push(f);
                    } else {
                        extras.push(f);
                    }
                    assert(aux_views(initrd@) =~= assets(pv, dc@, vc@, j + 1, true));
                    assert(aux_views(extras@) =~= assets(pv, dc@, vc@, j + 1, false));
                },
                None => {},
            }
        }
        j = j + 1;
    }
    let initrd = sort_files(initrd);
    let extras = sort_files(extras);
    Some(Kernel { version: v, image: paths[i].clone(), initrd, extras, variant: None })
}

fn kernel_for(ns: &Option<Vec<char>>, paths: &Vec<String>, i: usize) -> (r: Option<Kernel>)
    requires
        i < paths@.len(),
    ensures
        match r {
            Some(k) => kernel_at(ns_view(*ns), k, path_views(paths@), i as int),
            None => version_at(ns_view(*ns), path_views(paths@), i as int) is None,
        },
{
    proof {
        reveal(kernel_at);
        reveal(version_at);
    }
    match ns {
        Some(n) => legacy_kernel(n, paths, i),
        None => modern_kernel(paths, i),
    }
}

pub open spec fn ns_view(ns: Option<Vec<char>>) -> Option<Seq<char>> {
    match ns {
        Some(n) => Some(n@),
        None => None,
    }
}

/// `k` is made from a path that wins among the first `cur`.
pub open spec fn has_origin(ns: Option<Seq<char>>, pv: Seq<Seq<char>>, k: Kernel, cur: int) -> bool {
    exists|i: int| wins(ns, pv, i, cur) && kernel_at(ns, k, pv, i)
}

/// Some kernel of `r` has version `v`.
pub open spec fn has_version(r: Seq<Kernel>, v: Option<Seq<char>>) -> bool {
    exists|k: int| 0 <= k < r.len() && Some(r[k].version@) == v
}

/// Every kernel of `r` comes from a path that wins among the first `cur`.
pub open spec fn scanned_from(ns: Option<Seq<char>>, pv: Seq<Seq<char>>, r: Seq<Kernel>, cur: int) -> bool {
    forall|k: int| 0 <= k < r.len() ==> has_origin(ns, pv, #[trigger] r[k], cur)
}

/// Every version among the first `cur` paths has a kernel in `r`.
pub open spec fn scanned_cover(ns: Option<Seq<char>>, pv: Seq<Seq<char>>, r: Seq<Kernel>, cur: int) -> bool {
    forall|i: int|
        0 <= i < cur && (#[trigger] version_at(ns, pv, i)) is Some ==> has_version(r, version_at(ns, pv, i))
}

/// What the discovery loop knows after the first `cur` paths.
pub open spec fn scanned(ns: Option<Seq<char>>, pv: Seq<Seq<char>>, r: Seq<Kernel>, cur: int) -> bool {
    &&& versions_sorted(r)
    &&& scanned_from(ns, pv, r, cur)
    &&& scanned_cover(ns, pv, r, cur)
}

proof fn lemma_scan_none(ns: Option<Seq<char>>, pv: Seq<Seq<char>>, r: Seq<Kernel>, cur: int)
    requires
        scanned(ns, pv, r, cur),
        version_at(ns, pv, cur) is None,
    ensures
        scanned(ns, pv, r, cur + 1),
{
    assert forall|k: int| 0 <= k < r.len() implies has_origin(ns, pv, #[trigger] r[k], cur + 1) by {
        assert(has_origin(ns, pv, r[k], cur));
        let i = choose|i: int| wins(ns, pv, i, cur) && kernel_at(ns, r[k], pv, i);
        assert(wins(ns, pv, i, cur + 1) && kernel_at(ns, r[k], pv, i));
    }
    assert forall|i: int|
        0 <= i < cur + 1 && (#[trigger] version_at(ns, pv, i)) is Some implies has_version(
        r,
        version_at(ns, pv, i),
    ) by {
        assert(i < cur);
    }
}

proof fn lemma_scan_some_from(
    ns: Option<Seq<char>>,
    pv: Seq<Seq<char>>,
    old_r: Seq<Kernel>,
    r: Seq<Kernel>,
    kk: Kernel,
    cur: int,
)
    requires
        0 <= cur,
        scanned_from(ns, pv, old_r, cur),
        kernel_at(ns, kk, pv, cur),
        forall|j: int|
            0 <= j < r.len() ==> #[trigger] r[j] == kk || exists|m: int|
                0 <= m < old_r.len() && old_r[m] == r[j] && old_r[m].version@ != kk.version@,
    ensures
        scanned_from(ns, pv, r, cur + 1),
{
    let kv = kk.version@;
    lemma_kernel_version(ns, kk, pv, cur);
    assert forall|k: int| 0 <= k < r.len() implies has_origin(ns, pv, #[trigger] r[k], cur + 1) by {
        if r[k] == kk {
            assert(wins(ns, pv, cur, cur + 1) && kernel_at(ns, r[k], pv, cur));
        } else {
            let m = choose|m: int| 0 <= m < old_r.len() && old_r[m] == r[k] && old_r[m].version@ != kv;
            assert(has_origin(ns, pv, old_r[m], cur));
            let i = choose|i: int| wins(ns, pv, i, cur) && kernel_at(ns, old_r[m], pv, i);
            lemma_kernel_version(ns, old_r[m], pv, i);
            assert(wins(ns, pv, i, cur + 1) && kernel_at(ns, r[k], pv, i));
        }
    }
}

proof fn lemma_scan_some_cover(
    ns: Option<Seq<char>>,
    pv: Seq<Seq<char>>,
    old_r: Seq<Kernel>,
    r: Seq<Kernel>,
    kk: Kernel,
    cur: int,
)
    requires
        0 <= cur,
        scanned_cover(ns, pv, old_r, cur),
        kernel_at(ns, kk, pv, cur),
        exists|j: int| 0 <= j < r.len() && r[j] == kk,
        forall|m: int|
            0 <= m < old_r.len() && (#[trigger] old_r[m]).version@ != kk.version@ ==> exists|j: int|
                0 <= j < r.len() && r[j] == old_r[m],
    ensures
        scanned_cover(ns, pv, r, cur + 1),
{
    let kv = kk.version@;
    lemma_kernel_version(ns, kk, pv, cur);
    assert forall|i: int|
        0 <= i < cur + 1 && (#[trigger] version_at(ns, pv, i)) is Some implies has_version(
        r,
        version_at(ns, pv, i),
    ) by {
        if version_at(ns, pv, i) == Some(kv) {
            let j = choose|j: int| 0 <= j < r.len() && r[j] == kk;
            assert(0 <= j < r.len() && Some(r[j].version@) == version_at(ns, pv, i));
        } else {
            assert(has_version(old_r, version_at(ns, pv, i)));
            let k0 = choose|k: int| 0 <= k < old_r.len() && Some(old_r[k].version@) == version_at(ns, pv, i);
            assert(old_r[k0].version@ != kv);
            let j = choose|j: int| 0 <= j < r.len() && r[j] == old_r[k0];
            assert(0 <= j < r.len() && Some(r[j].version@) == version_at(ns, pv, i));
        }
    }
}

proof fn lemma_winner_unique(ns: Option<Seq<char>>, pv: Seq<Seq<char>>, i: int, i2: int, n: int)
    requires
        wins(ns, pv, i, n),
        wins(ns, pv, i2, n),
        version_at(ns, pv, i) == version_at(ns, pv, i2),
    ensures
        i == i2,
{
}

proof fn lemma_scan_done_one(ns: Option<Seq<char>>, pv: Seq<Seq<char>>, r: Seq<Kernel>, i: int)
    requires
        scanned(ns, pv, r, pv.len() as int),
        wins(ns, pv, i, pv.len() as int),
    ensures
        has_kernel_from(ns, pv, r, i),
{
    let n = pv.len() as int;
    assert(has_version(r, version_at(ns, pv, i)));
    let k = choose|k: int| 0 <= k < r.len() && Some(r[k].version@) == version_at(ns, pv, i);
    assert(has_origin(ns, pv, r[k], n));
    let i2 = choose|i2: int| wins(ns, pv, i2, n) && kernel_at(ns, r[k], pv, i2);
    lemma_kernel_version(ns, r[k], pv, i2);
    lemma_winner_unique(ns, pv, i, i2, n);
    assert(0 <= k < r.len() && kernel_at(ns, r[k], pv, i));
}

proof fn lemma_scan_done(ns: Option<Seq<char>>, pv: Seq<Seq<char>>, r: Seq<Kernel>)
    requires
        scanned(ns, pv, r, pv.len() as int),
    ensures
        discovered(ns, pv, r),
{
    assert forall|i: int| #[trigger] wins(ns, pv, i, pv.len() as int) implies has_kernel_from(ns, pv, r, i) by {
        lemma_scan_done_one(ns, pv, r, i);
    }
}

fn discover(ns: &Option<Vec<char>>, paths: &Vec<String>) -> (r: Vec<Kernel>)
    ensures
        discovered(ns_view(*ns), path_views(paths@), r@),
{
    let ghost nv = ns_view(*ns);
    let ghost pv = path_views(paths@);
    let mut r: Vec<Kernel> = Vec::new();
    let mut cur: usize = 0;
    while cur < paths.len()
        invariant
            cur <= paths@.len(),
            nv == ns_view(*ns),
            pv == path_views(paths@),
            scanned(nv, pv, r@, cur as int),
        decreases paths@.len() - cur,
    {
        let found = kernel_for(ns, paths, cur);
        match found {
            Some(kk) => {
                let ghost old_r = r@;
                let ghost kk_ghost = kk;
                upsert(&mut r, kk);
                proof {
                    lemma_scan_some_from(nv, pv, old_r, r@, kk_ghost, cur as int);
                    lemma_scan_some_cover(nv, pv, old_r, r@, kk_ghost, cur as int);
                }
            },
            None => {
                proof {
                    lemma_scan_none(nv, pv, r@, cur as int);
                }
            },
        }
        cur = cur + 1;
    }
    proof {
        lemma_scan_done(nv, pv, r@);
    }
    r
}

impl Schema {
    pub open spec fn spec_os_release(&self) -> &OsRelease {
        match self {
            Schema::Legacy { os_release, .. } => os_release,
            Schema::Blsforme { os_release } => os_release,
        }
    }

    /// The namespace of a legacy schema.
    pub open spec fn namespace_view(&self) -> Option<Seq<char>> {
        match self {
            Schema::Legacy { namespace, .. } => Some(namespace@),
            Schema::Blsforme { .. } => None,
        }
    }

    /// The OS release the schema belongs to.
    #[verifier::when_used_as_spec(spec_os_release)]
    pub fn os_release(&self) -> (r: &OsRelease)
        ensures
            r == self.spec_os_release(),
    {
        match self {
            Schema::Legacy { os_release, .. } => os_release,
            Schema::Blsforme { os_release } => os_release,
        }
    }

    /// The kernels found among `paths` (candidate paths below
    /// `/usr/lib/kernel`): one per version, from the last image of that
    /// version, sorted by version, with their auxiliary files sorted
    /// case-insensitively by path.
    pub fn discover_system_kernels(&self, paths: &Vec<String>) -> (r: Vec<Kernel>)
        ensures
            discovered(self.namespace_view(), path_views(paths@), r@),
    {
        let ns = match self {
            Schema::Legacy { namespace, .. } => Some(chars_of(namespace.as_str())),
            Schema::Blsforme { .. } => None,
        };
        discover(&ns, paths)
    }
}

/// The schema of a system: Solus 4 and Clear Linux keep their legacy
/// namespaces, every other system uses versioned directories.
pub open spec fn schema_for(os: OsRelease) -> Option<Seq<char>> {
    if os.id@ == "solus"@ && (os.version.name matches Some(v) && starts_with(v@, "4."@)) {
        Some("com.solus-project"@)
    } else if os.id@ == "clear-linux-os"@ {
        Some("org.clearlinux"@)
    } else {
        None
    }
}

impl Schema {
    /// Chooses the schema of the system described by `os`.
    pub fn for_os_release(os: OsRelease) -> (r: Schema)
        ensures
            r.namespace_view() == schema_for(os),
            r.os_release() == os,
    {
        proof {
            reveal_strlit("solus");
            reveal_strlit("4.");
            reveal_strlit("clear-linux-os");
            reveal_strlit("com.solus-project");
            reveal_strlit("org.clearlinux");
        }
        let id = chars_of(os.id.as_str());
        let solus4 = literal_eq(&id, "solus") && match &os.version.name {
            Some(v) => crate::text::has_prefix(&chars_of(v.as_str()), &chars_of("4.")),
            None => false,
        };
        if solus4 {
            Schema::Legacy { namespace: "com.solus-project".to_owned(), os_release: os }
        } else if literal_eq(&id, "clear-linux-os") {
            Schema::Legacy { namespace: "org.clearlinux".to_owned(), os_release: os }
        } else {
            Schema::Blsforme { os_release: os }
        }
    }
}

impl Kernel {
    /// Records the variant named by the kernel's `boot.json`.
    pub fn set_variant_from(&mut self, boot: &BootJSON)
        ensures
            final(self).variant matches Some(v) && v@ == boot.variant@,
            final(self).version == old(self).version,
            final(self).image == old(self).image,
            final(self).initrd == old(self).initrd,
            final(self).extras == old(self).extras,
    {
        self.variant = Some(boot.variant.clone());
    }
}

} // verus!
