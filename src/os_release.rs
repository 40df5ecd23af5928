//! `os-release` files: `KEY=value` lines, `#` comments, values optionally
//! quoted. Later assignments of a key replace earlier ones.

use crate::mtab::{find_char, first_index};
use crate::text::{chars_eq, chars_of, copy_range, lines, lines_of, string_from, trim, trim_chars};
use vstd::prelude::*;

verus! {

/// Decoding errors.
#[derive(Debug, Clone, PartialEq, Eq)]
pub enum Error {
    /// A required key is absent
    MissingKey(String),
}

pub open spec fn is_quote(c: char) -> bool {
    c == '\'' || c == '"'
}

/// `s` without leading quote characters.
pub open spec fn unquote_start(s: Seq<char>) -> Seq<char>
    decreases s.len(),
{
    if s.len() > 0 && is_quote(s[0]) {
        unquote_start(s.drop_first())
    } else {
        s
    }
}

/// `s` without trailing quote characters.
pub open spec fn unquote_end(s: Seq<char>) -> Seq<char>
    decreases s.len(),
{
    if s.len() > 0 && is_quote(s.last()) {
        unquote_end(s.drop_last())
    } else {
        s
    }
}

/// The assignment on a line, if it holds one: the line is trimmed, comments
/// are skipped, and it is split at its first `=`; quotes around the value go.
pub open spec fn assignment(line: Seq<char>) -> Option<(Seq<char>, Seq<char>)> {
    let t = trim(line);
    if t.len() > 0 && t[0] == '#' {
        None
    } else {
        let i = first_index(t, '=');
        if i < t.len() {
            Some((t.subrange(0, i), unquote_end(unquote_start(t.subrange(i + 1, t.len() as int)))))
        } else {
            None
        }
    }
}

/// The assignments of the lines, in order.
pub open spec fn assignments(ls: Seq<Seq<char>>) -> Seq<(Seq<char>, Seq<char>)>
    decreases ls.len(),
{
    if ls.len() == 0 {
        seq![]
    } else {
        match assignment(ls.last()) {
            Some(a) => assignments(ls.drop_last()).push(a),
            None => assignments(ls.drop_last()),
        }
    }
}

/// The value last assigned to `key`.
pub open spec fn lookup(es: Seq<(Seq<char>, Seq<char>)>, key: Seq<char>) -> Option<Seq<char>>
    decreases es.len(),
{
    if es.len() == 0 {
        None
    } else if es.last().0 == key {
        Some(es.last().1)
    } else {
        lookup(es.drop_last(), key)
    }
}

pub open spec fn opt_view(o: Option<String>) -> Option<Seq<char>> {
    match o {
        Some(s) => Some(s@),
        None => None,
    }
}

/// Logical grouping of metadata fields to assist in queries
pub struct Metadata {
    /// What `OsRelease::id` is this OS like?
    pub like: Option<String>,
    /// "Nice" rendered name for the project
    pub pretty_name: Option<String>,
    /// CPE "product name"
    pub cpe_name: Option<String>,
}

/// Logical grouping of the distribution version data
pub struct Version {
    /// Human readable display of version
    pub name: Option<String>,
    /// Unique ID for the version
    pub id: Option<String>,
    /// Any codename associated
    pub codename: Option<String>,
    /// Specific build ID
    pub build_id: Option<String>,
    /// Name/description of the variant
    pub variant: Option<String>,
    /// Likewise, but a unique ID
    pub variant_id: Option<String>,
}

/// Various URLs specific to the project
pub struct Urls {
    /// Public homepage
    pub homepage: Option<String>,
    /// Documentation resources
    pub documentation: Option<String>,
    /// Official support links/landing
    pub support: Option<String>,
    /// Where bugs may be reported
    pub bug_report: Option<String>,
    /// Link to an up to date privacy policy
    pub privacy_policy: Option<String>,
}

/// Basic branding details
pub struct Brand {
    /// A freedesktop icon name for the distribution logo
    pub logo: Option<String>,
    /// An ANSI sequence used to render the distribution name
    pub ansi_color: Option<String>,
}

/// Vendor specific information
pub struct Vendor {
    /// The shipping vendor's name
    pub name: Option<String>,
    /// The shipping vendor's website
    pub url: Option<String>,
}

/// General structure of the `os-release` file used by Linux distributions
pub struct OsRelease {
    /// Name of the operating system
    pub name: String,
    /// Unique ID for the OS
    pub id: String,
    /// metadata
    pub meta: Metadata,
    /// versioning
    pub version: Version,
    /// Useful project/OS links
    pub urls: Urls,
    /// When does support end? ISO-8601
    pub support_ends: Option<String>,
    /// branding details
    pub brand: Brand,
    /// Vendor details
    pub vendor: Vendor,
}

/// `r` holds the values that the assignments `es` give to its keys.
pub open spec fn decoded(r: OsRelease, es: Seq<(Seq<char>, Seq<char>)>) -> bool {
    &&& Some(r.name@) == lookup(es, "NAME"@)
    &&& Some(r.id@) == lookup(es, "ID"@)
    &&& opt_view(r.support_ends) == lookup(es, "SUPPORT_ENDS"@)
    &&& opt_view(r.meta.like) == lookup(es, "ID_LIKE"@)
    &&& opt_view(r.meta.pretty_name) == lookup(es, "PRETTY_NAME"@)
    &&& opt_view(r.meta.cpe_name) == lookup(es, "CPE_NAME"@)
    &&& opt_view(r.version.name) == lookup(es, "VERSION"@)
    &&& opt_view(r.version.id) == lookup(es, "VERSION_ID"@)
    &&& opt_view(r.version.codename) == lookup(es, "VERSION_CODENAME"@)
    &&& opt_view(r.version.build_id) == lookup(es, "BUILD_ID"@)
    &&& opt_view(r.version.variant) == lookup(es, "VARIANT"@)
    &&& opt_view(r.version.variant_id) == lookup(es, "VARIANT_ID"@)
    &&& opt_view(r.urls.homepage) == lookup(es, "HOME_URL"@)
    &&& opt_view(r.urls.documentation) == lookup(es, "DOCUMENTATION_URL"@)
    &&& opt_view(r.urls.support) == lookup(es, "SUPPORT_URL"@)
    &&& opt_view(r.urls.bug_report) == lookup(es, "BUG_REPORT_URL"@)
    &&& opt_view(r.urls.privacy_policy) == lookup(es, "PRIVACY_POLICY_URL"@)
    &&& opt_view(r.brand.logo) == lookup(es, "LOGO"@)
    &&& opt_view(r.brand.ansi_color) == lookup(es, "ANSI_COLOR"@)
    &&& opt_view(r.vendor.name) == lookup(es, "name"@)
    &&& opt_view(r.vendor.url) == lookup(es, "url"@)
}

/// The assignments read from the lines.
fn read_assignments(ls: &Vec<Vec<char>>) -> (r: Vec<(Vec<char>, Vec<char>)>)
    ensures
        r@.map_values(|a: (Vec<char>, Vec<char>)| (a.0@, a.1@)) == assignments(
            ls@.map_values(|l: Vec<char>| l@),
        ),
{
    let ghost lv = ls@.map_values(|l: Vec<char>| l@);
    let mut r: Vec<(Vec<char>, Vec<char>)> = Vec::new();
    let mut i: usize = 0;
    while i < ls.len()
        invariant
            i <= ls@.len(),
            lv == ls@.map_values(|l: Vec<char>| l@),
            r@.map_values(|a: (Vec<char>, Vec<char>)| (a.0@, a.1@)) == assignments(
                lv.subrange(0, i as int),
            ),
        decreases ls@.len() - i,
    {
        proof {
            assert(lv.subrange(0, i + 1).drop_last() == lv.subrange(0, i as int));
            assert(lv.subrange(0, i + 1).last() == ls@[i as int]@);
        }
        let t = trim_chars(&ls[i]);
        if t.len() > 0 && t[0] == '#' {
        } else {
            let k = find_char(&t, '=');
            if k < t.len() {
                let key = copy_range(&t, 0, k);
                let raw = copy_range(&t, k + 1, t.len());
                let value = unquote(&raw);
                r.push((key, value));
                assert(r@.map_values(|a: (Vec<char>, Vec<char>)| (a.0@, a.1@)) =~= assignments(
                    lv.subrange(0, i + 1),
                ));
            }
        }
        i = i + 1;
    }
    assert(lv.subrange(0, ls@.len() as int) == lv);
    r
}

fn unquote(s: &Vec<char>) -> (r: Vec<char>)
    ensures
        r@ == unquote_end(unquote_start(s@)),
{
    let n = s.len();
    let mut i: usize = 0;
    assert(s@.subrange(0, n as int) == s@);
    while i < n && (s[i] == '\'' || s[i] == '"')
        invariant
            i <= n == s@.len(),
            unquote_start(s@) == unquote_start(s@.subrange(i as int, n as int)),
        decreases n - i,
    {
        assert(s@.subrange(i as int, n as int).drop_first() == s@.subrange(i + 1, n as int));
        i = i + 1;
    }
    let mut t = copy_range(s, i, n);
    assert(unquote_start(s@) == t@);
    while t.len() > 0 && (t[t.len() - 1] == '\'' || t[t.len() - 1] == '"')
        invariant
            unquote_end(t@) == unquote_end(unquote_start(s@)),
        decreases t@.len(),
    {
        t.pop();
    }
    t
}

fn lookup_in(es: &Vec<(Vec<char>, Vec<char>)>, key: &str) -> (r: Option<String>)
    ensures
        opt_view(r) == lookup(es@.map_values(|a: (Vec<char>, Vec<char>)| (a.0@, a.1@)), key@),
{
    let ghost ev = es@.map_values(|a: (Vec<char>, Vec<char>)| (a.0@, a.1@));
    let kc = chars_of(key);
    let mut n = es.len();
    assert(ev.subrange(0, ev.len() as int) == ev);
    while n > 0
        invariant
            n <= es@.len(),
            ev == es@.map_values(|a: (Vec<char>, Vec<char>)| (a.0@, a.1@)),
            kc@ == key@,
            lookup(ev, key@) == lookup(ev.subrange(0, n as int), key@),
        decreases n,
    {
        proof {
            assert(ev.subrange(0, n as int).drop_last() == ev.subrange(0, n - 1));
            assert(ev.subrange(0, n as int).last() == (es@[n - 1].0@, es@[n - 1].1@));
        }
        if chars_eq(&es[n - 1].0, &kc) {
            return Some(string_from(es[n - 1].1.as_slice()));
        }
        n = n - 1;
    }
    None
}

impl OsRelease {
    /// Decodes the text of an `os-release` file; `NAME` and `ID` are required.
    pub fn parse(text: &str) -> (r: Result<OsRelease, Error>)
        ensures
            r is Ok <==> lookup(assignments(lines(text@)), "NAME"@) is Some && lookup(
                assignments(lines(text@)),
                "ID"@,
            ) is Some,
            r matches Ok(o) ==> decoded(o, assignments(lines(text@))),
            r matches Err(Error::MissingKey(k)) ==> if lookup(assignments(lines(text@)), "NAME"@) is None {
                k@ == "NAME"@
            } else {
                k@ == "ID"@
            },
    {
        let chars = chars_of(text);
        let ls = lines_of(&chars);
        let es = read_assignments(&ls);
        proof {
            reveal_strlit("NAME");
            reveal_strlit("ID");
            reveal_strlit("SUPPORT_ENDS");
            reveal_strlit("ID_LIKE");
            reveal_strlit("PRETTY_NAME");
            reveal_strlit("CPE_NAME");
            reveal_strlit("VERSION");
            reveal_strlit("VERSION_ID");
            reveal_strlit("VERSION_CODENAME");
            reveal_strlit("BUILD_ID");
            reveal_strlit("VARIANT");
            reveal_strlit("VARIANT_ID");
            reveal_strlit("HOME_URL");
            reveal_strlit("DOCUMENTATION_URL");
            reveal_strlit("SUPPORT_URL");
            reveal_strlit("BUG_REPORT_URL");
            reveal_strlit("PRIVACY_POLICY_URL");
            reveal_strlit("LOGO");
            reveal_strlit("ANSI_COLOR");
            reveal_strlit("name");
            reveal_strlit("url");
            assert(ls@.map_values(|l: Vec<char>| l@) == crate::text::views(ls@));
        }
        let name = match lookup_in(&es, "NAME") {
            Some(v) => v,
            None => return Err(Error::MissingKey("NAME".to_owned())),
        };
        let id = match lookup_in(&es, "ID") {
            Some(v) => v,
            None => return Err(Error::MissingKey("ID".to_owned())),
        };
        Ok(OsRelease {
            name,
            id,
            meta: Metadata {
                like: lookup_in(&es, "ID_LIKE"),
                pretty_name: lookup_in(&es, "PRETTY_NAME"),
                cpe_name: lookup_in(&es, "CPE_NAME"),
            },
            version: Version {
                name: lookup_in(&es, "VERSION"),
                id: lookup_in(&es, "VERSION_ID"),
                codename: lookup_in(&es, "VERSION_CODENAME"),
                build_id: lookup_in(&es, "BUILD_ID"),
                variant: lookup_in(&es, "VARIANT"),
                variant_id: lookup_in(&es, "VARIANT_ID"),
            },
            urls: Urls {
                homepage: lookup_in(&es, "HOME_URL"),
                documentation: lookup_in(&es, "DOCUMENTATION_URL"),
                support: lookup_in(&es, "SUPPORT_URL"),
                bug_report: lookup_in(&es, "BUG_REPORT_URL"),
                privacy_policy: lookup_in(&es, "PRIVACY_POLICY_URL"),
            },
            support_ends: lookup_in(&es, "SUPPORT_ENDS"),
            brand: Brand {
                logo: lookup_in(&es, "LOGO"),
                ansi_color: lookup_in(&es, "ANSI_COLOR"),
            },
            vendor: Vendor {
                name: lookup_in(&es, "name"),
                url: lookup_in(&es, "url"),
            },
        })
    }
}

impl std::str::FromStr for OsRelease {
    type Err = Error;

    fn from_str(s: &str) -> Result<Self, Self::Err> {
        OsRelease::parse(s)
    }
}

} // verus!
