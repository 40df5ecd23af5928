//! Paths as text: joining, final components and parents, with `/` as the
//! only separator.

use crate::text::{chars_of, copy_range, split, split_chars, string_from, views};
use vstd::prelude::*;

verus! {

/// What `str::to_lowercase` makes of the characters.
pub uninterp spec fn lower_of(s: Seq<char>) -> Seq<char>;

/// ASCII text with `A`..=`Z` mapped to `a`..=`z`.
pub open spec fn ascii_lower(s: Seq<char>) -> Seq<char> {
    s.map_values(
        |c: char|
            if 'A' <= c && c <= 'Z' {
                ((c as u32) + 32) as char
            } else {
                c
            },
    )
}

/// Relies on `str::to_lowercase`: the result depends on the characters alone,
/// and on ASCII text it lowers `A`..=`Z` and keeps every other character.
#[verifier::external_body]
pub(crate) fn lowercase(s: &str) -> (r: String)
    ensures
        r@ == lower_of(s@),
        (forall|i: int| 0 <= i < s@.len() ==> (#[trigger] s@[i] as u32) < 128) ==> r@ == ascii_lower(
            s@,
        ),
{
    s.to_lowercase()
}

/// `b` appended to `a` as a path: an absolute `b` replaces `a`, and one `/`
/// separates the two unless `a` is empty or already ends in `/`.
pub open spec fn join(a: Seq<char>, b: Seq<char>) -> Seq<char> {
    if b.len() > 0 && b[0] == '/' {
        b
    } else if a.len() == 0 {
        b
    } else if a.last() == '/' {
        a + b
    } else {
        a + seq!['/'] + b
    }
}

/// `p` without trailing slashes.
pub open spec fn strip_slashes(p: Seq<char>) -> Seq<char>
    decreases p.len(),
{
    if p.len() > 0 && p.last() == '/' {
        strip_slashes(p.drop_last())
    } else {
        p
    }
}

/// Index just past the last `/` of `p` (0 when there is none).
pub open spec fn after_last_slash(p: Seq<char>) -> int
    decreases p.len(),
{
    if p.len() == 0 {
        0
    } else if p.last() == '/' {
        p.len() as int
    } else {
        after_last_slash(p.drop_last())
    }
}

/// The final component of `p`, ignoring trailing slashes.
pub open spec fn base_name(p: Seq<char>) -> Seq<char> {
    let q = strip_slashes(p);
    q.subrange(after_last_slash(q), q.len() as int)
}

/// `p` without its final component and the slash before it.
pub open spec fn dir_name(p: Seq<char>) -> Seq<char> {
    let q = strip_slashes(p);
    let k = after_last_slash(q);
    if k == 0 {
        seq![]
    } else if k == 1 {
        seq!['/']
    } else {
        q.subrange(0, k - 1)
    }
}

pub fn join_path(a: &str, b: &str) -> (r: String)
    ensures
        r@ == join(a@, b@),
{
    let av = chars_of(a);
    let bv = chars_of(b);
    let mut r = av.clone();
    if bv.len() > 0 && bv[0] == '/' {
        return b.to_owned();
    }
    if av.len() == 0 {
        return b.to_owned();
    }
    if av[av.len() - 1] != '/' {
        r.push('/');
    }
    let mut i: usize = 0;
    while i < bv.len()
        invariant
            i <= bv@.len(),
            r@ == (if av@.last() == '/' { av@ } else { av@ + seq!['/'] }) + bv@.subrange(
                0,
                i as int,
            ),
        decreases bv@.len() - i,
    {
        r.push(bv[i]);
        i = i + 1;
    }
    assert(bv@.subrange(0, bv@.len() as int) == bv@);
    string_from(r.as_slice())
}

fn strip_trailing_slashes(p: &Vec<char>) -> (r: Vec<char>)
    ensures
        r@ == strip_slashes(p@),
{
    let mut q = p.clone();
    while q.len() > 0 && q[q.len() - 1] == '/'
        invariant
            strip_slashes(q@) == strip_slashes(p@),
        decreases q@.len(),
    {
        q.pop();
    }
    q
}

fn last_slash_end(q: &Vec<char>) -> (r: usize)
    ensures
        r as int == after_last_slash(q@),
        r <= q@.len(),
{
    let mut k: usize = q.len();
    assert(q@.subrange(0, q@.len() as int) == q@);
    while k > 0 && q[k - 1] != '/'
        invariant
            k <= q@.len(),
            after_last_slash(q@) == after_last_slash(q@.subrange(0, k as int)),
        decreases k,
    {
        assert(q@.subrange(0, k as int).drop_last() == q@.subrange(0, k - 1));
        k = k - 1;
    }
    proof {
        if k > 0 {
            assert(q@.subrange(0, k as int).last() == '/');
        }
        lemma_after_last_slash_bound(q@);
    }
    k
}

proof fn lemma_after_last_slash_bound(p: Seq<char>)
    ensures
        0 <= after_last_slash(p) <= p.len(),
    decreases p.len(),
{
    if p.len() > 0 {
        lemma_after_last_slash_bound(p.drop_last());
    }
}

/// The final component of a path.
pub fn file_name(p: &str) -> (r: String)
    ensures
        r@ == base_name(p@),
{
    let pv = chars_of(p);
    let q = strip_trailing_slashes(&pv);
    let k = last_slash_end(&q);
    let name = copy_range(&q, k, q.len());
    string_from(name.as_slice())
}

/// The last name among path pieces: empty pieces and `.` are skipped, and a
/// final `..` (or no name at all) gives `None`.
pub open spec fn last_name(pieces: Seq<Seq<char>>) -> Option<Seq<char>>
    decreases pieces.len(),
{
    if pieces.len() == 0 {
        None
    } else if pieces.last().len() == 0 || pieces.last() == seq!['.'] {
        last_name(pieces.drop_last())
    } else if pieces.last() == seq!['.', '.'] {
        None
    } else {
        Some(pieces.last())
    }
}

/// The final file name of a path, as `Path::file_name` gives it: `None` for
/// an empty path, for `/`, and for a path ending in `..`.
pub open spec fn path_file_name(p: Seq<char>) -> Option<Seq<char>> {
    last_name(split(p, '/'))
}

/// The final file name of a path, if it has one.
pub fn file_name_of(p: &str) -> (r: Option<String>)
    ensures
        match r {
            Some(n) => path_file_name(p@) == Some(n@),
            None => path_file_name(p@) is None,
        },
{
    let pv = chars_of(p);
    let pieces = split_chars(&pv, '/');
    let ghost ps = views(pieces@);
    let mut n = pieces.len();
    assert(ps.subrange(0, ps.len() as int) == ps);
    while n > 0
        invariant
            n <= pieces@.len(),
            ps == views(pieces@),
            ps == split(p@, '/'),
            last_name(ps) == last_name(ps.subrange(0, n as int)),
        decreases n,
    {
        let piece = &pieces[n - 1];
        proof {
            assert(ps.subrange(0, n as int).drop_last() == ps.subrange(0, n - 1));
            assert(ps.subrange(0, n as int).last() == piece@);
        }
        let empty = piece.len() == 0;
        let dot = piece.len() == 1 && piece[0] == '.';
        let dotdot = piece.len() == 2 && piece[0] == '.' && piece[1] == '.';
        proof {
            if piece@.len() == 1 {
                assert(dot == (piece@ =~= seq!['.']));
            } else {
                assert(piece@ != seq!['.']);
            }
            if piece@.len() == 2 {
                assert(dotdot == (piece@ =~= seq!['.', '.']));
            } else {
                assert(piece@ != seq!['.', '.']);
            }
        }
        if dotdot {
            return None;
        }
        if !empty && !dot {
            return Some(string_from(piece.as_slice()));
        }
        n = n - 1;
    }
    None
}

/// The directory holding the final component of a path.
pub fn parent(p: &str) -> (r: String)
    ensures
        r@ == dir_name(p@),
{
    let pv = chars_of(p);
    let q = strip_trailing_slashes(&pv);
    let k = last_slash_end(&q);
    if k == 0 {
        String::new()
    } else if k == 1 {
        proof {
            reveal_strlit("/");
        }
        "/".to_owned()
    } else {
        let d = copy_range(&q, 0, k - 1);
        string_from(d.as_slice())
    }
}

/// The first entry whose lower-case form is that of `child`, if any.
pub open spec fn insensitive_match(entries: Seq<Seq<char>>, child: Seq<char>) -> Option<int> {
    if exists|i: int| 0 <= i < entries.len() && lower_of(#[trigger] entries[i]) == lower_of(child) {
        Some(
            choose|i: int|
                0 <= i < entries.len() && lower_of(#[trigger] entries[i]) == lower_of(child)
                    && forall|j: int| 0 <= j < i ==> lower_of(entries[j]) != lower_of(child),
        )
    } else {
        None
    }
}

/// `child` joined to `base`, reusing the spelling of an existing entry of
/// `base` that differs from `child` in case only.
pub open spec fn insensitive_join(
    base: Seq<char>,
    entries: Seq<Seq<char>>,
    child: Seq<char>,
) -> Seq<char> {
    match insensitive_match(entries, child) {
        Some(i) => join(base, entries[i]),
        None => join(base, child),
    }
}

/// Every character is ASCII.
pub open spec fn is_ascii_text(s: Seq<char>) -> bool {
    forall|i: int| 0 <= i < s.len() ==> (#[trigger] s[i] as u32) < 128
}

/// The first entry equal to `child` up to ASCII case, if any.
pub open spec fn ascii_match(entries: Seq<Seq<char>>, child: Seq<char>) -> Option<int> {
    if exists|i: int| 0 <= i < entries.len() && ascii_lower(#[trigger] entries[i]) == ascii_lower(child) {
        Some(
            choose|i: int|
                0 <= i < entries.len() && ascii_lower(#[trigger] entries[i]) == ascii_lower(child)
                    && forall|j: int| 0 <= j < i ==> ascii_lower(entries[j]) != ascii_lower(child),
        )
    } else {
        None
    }
}

/// Joins `child` to `base`, whose directory `entries` were listed, keeping the
/// on-disk casing of an entry whose lower-case form equals that of `child`.
/// For ASCII names this is ASCII case folding.
pub fn join_insensitive(base: &str, entries: &Vec<String>, child: &str) -> (r: String)
    ensures
        r@ == insensitive_join(base@, entries@.map_values(|e: String| e@), child@),
        is_ascii_text(child@) && (forall|k: int|
            0 <= k < entries@.len() ==> is_ascii_text(#[trigger] entries@[k]@)) ==> r@ == match ascii_match(
            entries@.map_values(|e: String| e@),
            child@,
        ) {
            Some(i) => join(base@, entries@[i]@),
            None => join(base@, child@),
        },
{
    let ghost names = entries@.map_values(|e: String| e@);
    let ghost asc = is_ascii_text(child@) && (forall|k: int|
        0 <= k < entries@.len() ==> is_ascii_text(#[trigger] entries@[k]@));
    let want = lowercase(child);
    let mut i: usize = 0;
    while i < entries.len()
        invariant
            i <= entries@.len(),
            names == entries@.map_values(|e: String| e@),
            asc == (is_ascii_text(child@) && (forall|k: int|
                0 <= k < entries@.len() ==> is_ascii_text(#[trigger] entries@[k]@))),
            want@ == lower_of(child@),
            asc ==> want@ == ascii_lower(child@),
            forall|j: int| 0 <= j < i ==> lower_of(#[trigger] names[j]) != lower_of(child@),
            asc ==> forall|j: int| 0 <= j < i ==> ascii_lower(#[trigger] names[j]) != ascii_lower(child@),
        decreases entries@.len() - i,
    {
        let low = lowercase(entries[i].as_str());
        assert(names[i as int] == entries@[i as int]@);
        proof {
            if asc {
                assert(is_ascii_text(entries@[i as int]@));
            }
        }
        if low == want {
            proof {
                assert(0 <= i < names.len() && lower_of(names[i as int]) == lower_of(child@)
                    && forall|j: int| 0 <= j < i ==> lower_of(names[j]) != lower_of(child@));
                let k = choose|k: int|
                    0 <= k < names.len() && lower_of(#[trigger] names[k]) == lower_of(child@)
                        && forall|j: int| 0 <= j < k ==> lower_of(names[j]) != lower_of(child@);
                if k < i {
                } else if k > i {
                    assert(lower_of(names[i as int]) != lower_of(child@));
                }
                if asc {
                    assert(0 <= i < names.len() && ascii_lower(names[i as int]) == ascii_lower(child@)
                        && forall|j: int| 0 <= j < i ==> ascii_lower(names[j]) != ascii_lower(child@));
                    let k2 = choose|k: int|
                        0 <= k < names.len() && ascii_lower(#[trigger] names[k]) == ascii_lower(child@)
                            && forall|j: int| 0 <= j < k ==> ascii_lower(names[j]) != ascii_lower(child@);
                    if k2 < i {
                    } else if k2 > i {
                        assert(ascii_lower(names[i as int]) != ascii_lower(child@));
                    }
                }
            }
            return join_path(base, entries[i].as_str());
        }
        i = i + 1;
    }
    join_path(base, child)
}

} // verus!
