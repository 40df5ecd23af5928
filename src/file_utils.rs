//! File decisions for the boot volume: command line snippets, change
//! detection by content digest, and the step sequence of an atomic copy onto
//! VFAT.

use crate::text::{chars_of, join, join_chars, lines, lines_of, string_from, trim, trim_chars, views};
use vstd::prelude::*;
use vstd::string::StringExecFns;

verus! {

/// The BLAKE3 digest of the bytes.
pub uninterp spec fn blake3_of(b: Seq<u8>) -> Seq<u8>;

/// Relies on `blake3::hash`: the 32-byte digest of the input.
#[verifier::external_body]
fn digest(b: &[u8]) -> (r: Vec<u8>)
    ensures
        r@ == blake3_of(b@),
{
    blake3::hash(b).as_bytes().to_vec()
}

/// The lines of a snippet that count: trimmed, without those starting with `#`.
pub open spec fn snippet_lines(ls: Seq<Seq<char>>) -> Seq<Seq<char>>
    decreases ls.len(),
{
    if ls.len() == 0 {
        seq![]
    } else {
        let t = trim(ls.last());
        if t.len() > 0 && t[0] == '#' {
            snippet_lines(ls.drop_last())
        } else {
            snippet_lines(ls.drop_last()).push(t)
        }
    }
}

/// A cmdline snippet: its lines trimmed, `#` comment lines dropped, and the
/// rest joined with single spaces.
pub open spec fn snippet_of(text: Seq<char>) -> Seq<char> {
    join(snippet_lines(lines(text)), seq![' '])
}

/// Reads a cmdline snippet from the text of a file.
pub fn cmdline_snippet_text(text: &str) -> (r: String)
    ensures
        r@ == snippet_of(text@),
{
    let chars = chars_of(text);
    let ls = lines_of(&chars);
    let mut kept: Vec<Vec<char>> = Vec::new();
    let mut i: usize = 0;
    while i < ls.len()
        invariant
            i <= ls@.len(),
            views(ls@) == lines(text@),
            views(kept@) == snippet_lines(views(ls@).subrange(0, i as int)),
        decreases ls@.len() - i,
    {
        proof {
            assert(views(ls@).subrange(0, i + 1).drop_last() == views(ls@).subrange(0, i as int));
            assert(views(ls@).subrange(0, i + 1).last() == ls@[i as int]@);
        }
        let t = trim_chars(&ls[i]);
        if t.len() > 0 && t[0] == '#' {
        } else {
            kept.push(t);
        }
        assert(views(kept@) =~= snippet_lines(views(ls@).subrange(0, i + 1)));
        i = i + 1;
    }
    assert(views(ls@).subrange(0, ls@.len() as int) == views(ls@));
    let mut sep: Vec<char> = Vec::new();
    sep.push(' ');
    let joined = join_chars(&kept, &sep);
    string_from(joined.as_slice())
}

/// What is known of a file for change detection.
pub struct FileState {
    /// Whether it is a regular file
    pub regular: bool,
    /// Its contents
    pub bytes: Vec<u8>,
}

/// Two files count as identical when type and size agree and so do their digests.
pub open spec fn identical(a: FileState, b: FileState) -> bool {
    &&& a.regular == b.regular
    &&& a.bytes@.len() == b.bytes@.len()
    &&& blake3_of(a.bytes@) == blake3_of(b.bytes@)
}

/// A copy is needed unless both files could be read and are identical.
pub open spec fn needs_copy(src: Option<FileState>, dst: Option<FileState>) -> bool {
    match (src, dst) {
        (Some(a), Some(b)) => !identical(a, b),
        _ => true,
    }
}

/// Compares two files by type, size and BLAKE3 digest.
pub fn files_identical(a: &FileState, b: &FileState) -> (r: bool)
    ensures
        r == identical(*a, *b),
{
    if a.regular != b.regular || a.bytes.len() != b.bytes.len() {
        return false;
    }
    let da = digest(a.bytes.as_slice());
    let db = digest(b.bytes.as_slice());
    bytes_eq(&da, &db)
}

fn bytes_eq(a: &Vec<u8>, b: &Vec<u8>) -> (r: bool)
    ensures
        r == (a@ == b@),
{
    if a.len() != b.len() {
        return false;
    }
    let mut i: usize = 0;
    while i < a.len()
        invariant
            a@.len() == b@.len(),
            i <= a@.len(),
            a@.subrange(0, i as int) == b@.subrange(0, i as int),
        decreases a@.len() - i,
    {
        if a[i] != b[i] {
            return false;
        }
        assert(a@.subrange(0, i + 1) == a@.subrange(0, i as int).push(a@[i as int]));
        assert(b@.subrange(0, i + 1) == b@.subrange(0, i as int).push(b@[i as int]));
        i = i + 1;
    }
    assert(a@.subrange(0, a@.len() as int) == a@);
    assert(b@.subrange(0, b@.len() as int) == b@);
    true
}

/// Whether a copy from `src` to `dst` is needed, given what could be read of them.
pub fn pair_changed(src: &Option<FileState>, dst: &Option<FileState>) -> (r: bool)
    ensures
        r == needs_copy(*src, *dst),
{
    match (src, dst) {
        (Some(a), Some(b)) => !files_identical(a, b),
        _ => true,
    }
}

/// Identical contents never need a copy.
pub proof fn lemma_same_contents_unchanged(a: FileState, b: FileState)
    requires
        a.regular == b.regular,
        a.bytes@ == b.bytes@,
    ensures
        !needs_copy(Some(a), Some(b)),
{
}

/// A missing or unreadable destination always needs a copy, and so does a
/// destination whose size differs.
pub proof fn lemma_missing_or_resized_changed(a: FileState, b: FileState)
    ensures
        needs_copy(Some(a), None),
        a.bytes@.len() != b.bytes@.len() ==> needs_copy(Some(a), Some(b)),
{
}

/// The `(source, destination)` pairs that need copying, in order.
pub open spec fn changed_pairs(
    pairs: Seq<(Seq<char>, Seq<char>)>,
    states: Seq<(Option<FileState>, Option<FileState>)>,
) -> Seq<(Seq<char>, Seq<char>)>
    decreases pairs.len(),
{
    if pairs.len() == 0 {
        seq![]
    } else {
        let n = pairs.len() - 1;
        let rest = changed_pairs(pairs.drop_last(), states);
        if needs_copy(states[n].0, states[n].1) {
            rest.push(pairs[n])
        } else {
            rest
        }
    }
}

/// Pairs whose source and destination hold the same bytes with the same
/// file type are never selected for copying: a file compared with a copy of
/// itself yields an empty changeset.
pub proof fn lemma_identical_pairs_unchanged(
    pairs: Seq<(Seq<char>, Seq<char>)>,
    states: Seq<(Option<FileState>, Option<FileState>)>,
)
    requires
        pairs.len() <= states.len(),
        forall|k: int|
            0 <= k < pairs.len() ==> (#[trigger] states[k]).0 is Some && states[k].1 is Some
                && states[k].0->0.regular == states[k].1->0.regular && states[k].0->0.bytes@
                == states[k].1->0.bytes@,
    ensures
        changed_pairs(pairs, states).len() == 0,
    decreases pairs.len(),
{
    if pairs.len() > 0 {
        lemma_identical_pairs_unchanged(pairs.drop_last(), states);
        let n = pairs.len() - 1;
        assert(states[n].0 is Some);
    }
}

pub open spec fn pair_views(p: Seq<(String, String)>) -> Seq<(Seq<char>, Seq<char>)> {
    p.map_values(|x: (String, String)| (x.0@, x.1@))
}

/// Selects the pairs whose files differ; `states[k]` describes the files of `pairs[k]`.
pub fn changed_files(
    pairs: &Vec<(String, String)>,
    states: &Vec<(Option<FileState>, Option<FileState>)>,
) -> (r: Vec<(String, String)>)
    requires
        states@.len() == pairs@.len(),
    ensures
        pair_views(r@) == changed_pairs(pair_views(pairs@), states@),
{
    let mut r: Vec<(String, String)> = Vec::new();
    let mut i: usize = 0;
    while i < pairs.len()
        invariant
            i <= pairs@.len() == states@.len(),
            pair_views(r@) == changed_pairs(pair_views(pairs@).subrange(0, i as int), states@),
        decreases pairs@.len() - i,
    {
        proof {
            assert(pair_views(pairs@).subrange(0, i + 1).drop_last() == pair_views(
                pairs@,
            ).subrange(0, i as int));
        }
        if pair_changed(&states[i].0, &states[i].1) {
            r.push((pairs[i].0.clone(), pairs[i].1.clone()));
        }
        assert(pair_views(r@) =~= changed_pairs(pair_views(pairs@).subrange(0, i + 1), states@));
        i = i + 1;
    }
    assert(pair_views(pairs@).subrange(0, pairs@.len() as int) == pair_views(pairs@));
    r
}

/// One step of an atomic copy onto VFAT.
#[derive(Debug, Clone, Copy, PartialEq, Eq, Structural)]
pub enum VfatStep {
    /// Create the destination's directory if needed
    EnsureParent,
    /// Write the source's contents to the temporary file (truncating it)
    WriteTemp,
    /// Flush the destination filesystem (`syncfs`)
    Sync,
    /// Remove the existing destination
    RemoveDest,
    /// Rename the temporary file to the destination
    RenameTemp,
}

/// The temporary file that a copy to `dst` writes first.
pub open spec fn temp_of(dst: Seq<char>) -> Seq<char> {
    dst + ".TmpWrite"@
}

/// The temporary file name for a copy to `dst`.
pub fn temp_path(dst: &str) -> (r: String)
    ensures
        r@ == temp_of(dst@),
{
    proof {
        reveal_strlit(".TmpWrite");
    }
    let mut r = dst.to_owned();
    r.append(".TmpWrite");
    r
}

/// The steps of an atomic copy: write the temporary file, flush, remove an
/// existing destination and flush, rename into place, flush.
pub open spec fn plan_of(dest_exists: bool) -> Seq<VfatStep> {
    if dest_exists {
        seq![
            VfatStep::EnsureParent,
            VfatStep::WriteTemp,
            VfatStep::Sync,
            VfatStep::RemoveDest,
            VfatStep::Sync,
            VfatStep::RenameTemp,
            VfatStep::Sync,
        ]
    } else {
        seq![
            VfatStep::EnsureParent,
            VfatStep::WriteTemp,
            VfatStep::Sync,
            VfatStep::RenameTemp,
            VfatStep::Sync,
        ]
    }
}

/// The step sequence of an atomic copy onto VFAT.
pub fn copy_plan(dest_exists: bool) -> (r: Vec<VfatStep>)
    ensures
        r@ == plan_of(dest_exists),
{
    let mut r: Vec<VfatStep> = Vec::new();
    r.push(VfatStep::EnsureParent);
    r.push(VfatStep::WriteTemp);
    r.push(VfatStep::Sync);
    if dest_exists {
        r.push(VfatStep::RemoveDest);
        r.push(VfatStep::Sync);
    }
    r.push(VfatStep::RenameTemp);
    r.push(VfatStep::Sync);
    assert(r@ =~= plan_of(dest_exists));
    r
}

/// The files of a volume after one step of copying `data` to `dst`.
pub open spec fn apply_step(
    fs: Map<Seq<char>, Seq<u8>>,
    step: VfatStep,
    data: Seq<u8>,
    dst: Seq<char>,
) -> Map<Seq<char>, Seq<u8>> {
    let tmp = temp_of(dst);
    match step {
        VfatStep::WriteTemp => fs.insert(tmp, data),
        VfatStep::RemoveDest => fs.remove(dst),
        VfatStep::RenameTemp => if fs.contains_key(tmp) {
            fs.remove(tmp).insert(dst, fs[tmp])
        } else {
            fs
        },
        _ => fs,
    }
}

/// The files of a volume after the first `n` steps.
pub open spec fn run_steps(
    fs: Map<Seq<char>, Seq<u8>>,
    steps: Seq<VfatStep>,
    n: int,
    data: Seq<u8>,
    dst: Seq<char>,
) -> Map<Seq<char>, Seq<u8>>
    decreases n,
{
    if n <= 0 {
        fs
    } else {
        apply_step(run_steps(fs, steps, n - 1, data, dst), steps[n - 1], data, dst)
    }
}

/// An atomic copy leaves the source's bytes at the destination and no
/// temporary file, and touches no other file; stopped at any point before
/// the rename, it leaves the destination as it was or absent, never partly
/// written.
pub proof fn lemma_copy_atomic(fs: Map<Seq<char>, Seq<u8>>, data: Seq<u8>, dst: Seq<char>)
    ensures
        ({
            let steps = plan_of(fs.contains_key(dst));
            let end = run_steps(fs, steps, steps.len() as int, data, dst);
            &&& end.contains_key(dst) && end[dst] == data
            &&& !end.contains_key(temp_of(dst))
            &&& forall|p: Seq<char>|
                p != dst && p != temp_of(dst) ==> (#[trigger] end.contains_key(p) == fs.contains_key(p)
                    && (fs.contains_key(p) ==> end[p] == fs[p]))
        }),
        forall|n: int|
            0 <= n <= plan_of(fs.contains_key(dst)).len() - 2 ==> {
                let mid = #[trigger] run_steps(fs, plan_of(fs.contains_key(dst)), n, data, dst);
                mid.contains_key(dst) ==> fs.contains_key(dst) && mid[dst] == fs[dst]
            },
{
    let tmp = temp_of(dst);
    assert(dst != tmp) by {
        assert(tmp.len() == dst.len() + 9) by {
            reveal_strlit(".TmpWrite");
        }
    }
    let steps = plan_of(fs.contains_key(dst));
    let ex = fs.contains_key(dst);
    assert(run_steps(fs, steps, 0, data, dst) == fs);
    let s1 = run_steps(fs, steps, 1, data, dst);
    let s2 = run_steps(fs, steps, 2, data, dst);
    let s3 = run_steps(fs, steps, 3, data, dst);
    let s4 = run_steps(fs, steps, 4, data, dst);
    let s5 = run_steps(fs, steps, 5, data, dst);
    assert(s1 == fs);
    assert(s2 == fs.insert(tmp, data));
    assert(s3 == s2);
    if ex {
        let s6 = run_steps(fs, steps, 6, data, dst);
        let s7 = run_steps(fs, steps, 7, data, dst);
        assert(s4 == s2.remove(dst));
        assert(s5 == s4);
        assert(s6 == s5.remove(tmp).insert(dst, data));
        assert(s7 == s6);
        assert forall|p: Seq<char>| p != dst && p != tmp implies (#[trigger] s7.contains_key(p)
            == fs.contains_key(p) && (fs.contains_key(p) ==> s7[p] == fs[p])) by {}
    } else {
        assert(s4 == s3.remove(tmp).insert(dst, data));
        assert(s5 == s4);
        assert forall|p: Seq<char>| p != dst && p != tmp implies (#[trigger] s5.contains_key(p)
            == fs.contains_key(p) && (fs.contains_key(p) ==> s5[p] == fs[p])) by {}
    }
    assert forall|n: int| 0 <= n <= steps.len() - 2 implies {
        let mid = #[trigger] run_steps(fs, steps, n, data, dst);
        mid.contains_key(dst) ==> fs.contains_key(dst) && mid[dst] == fs[dst]
    } by {
        if n == 0 {
        } else if n == 1 {
        } else if n == 2 {
        } else if n == 3 {
        } else if n == 4 {
        } else if n == 5 {
        }
    }
}

} // verus!
