//! The manager: global command line, choice of mountpoints for the boot
//! partitions, and the decisions taken before a sync.

use crate::bootenv::{opt_view, BootEnvironment};
use crate::bootloader::{entry_cmdline_of, lemma_excluded_snippet_ignored, stanza_of, Mounts};
use crate::entry::Entry;
use crate::kernel::{Kernel, Schema};
use crate::file_utils::{cmdline_snippet_text, snippet_of};
use crate::order::{lemma_lex_total, lex_le, lex_le_chars};
use crate::path::{join, join_path};
use crate::text::{chars_of, ends_with, string_views};
use crate::Error;
use vstd::prelude::*;

verus! {

broadcast use vstd::seq_lib::group_to_multiset_ensures;

/// An entry of `/etc/kernel/cmdline.d`.
pub struct EtcSnippet {
    /// File name
    pub name: String,
    /// Whether it is a symlink to `/dev/null`
    pub dev_null_link: bool,
    /// The file's text, where it could be read
    pub text: Option<String>,
}

/// A partition to mount before syncing.
pub struct PendingMount {
    pub device: String,
    pub mountpoint: String,
}

/// Encapsulate the entirety of the boot management core decisions
pub struct Manager<'a> {
    /// Root of all operations
    pub root: String,
    /// Image generation rather than the running system
    pub image_mode: bool,
    /// OS provided kernels
    pub entries: Vec<Entry<'a>>,
    /// Potential bootloader assets
    pub bootloader_assets: Vec<String>,
    /// Our detected boot environment
    pub boot_env: BootEnvironment,
    pub mounts: Mounts,
    pub cmdline: Vec<String>,
    pub system_excluded_snippets: Vec<String>,
}

pub type SnippetView = (Seq<char>, bool, Option<Seq<char>>);

pub open spec fn snippet_view(e: EtcSnippet) -> SnippetView {
    (e.name@, e.dev_null_link, opt_view(e.text))
}

pub open spec fn snippet_views(s: Seq<EtcSnippet>) -> Seq<SnippetView> {
    s.map_values(|e: EtcSnippet| snippet_view(e))
}

pub open spec fn names_sorted(s: Seq<SnippetView>) -> bool {
    forall|i: int| 0 <= i < s.len() - 1 ==> lex_le(#[trigger] s[i].0, s[i + 1].0)
}

/// A `*.cmdline` file name (with a non-empty stem).
pub open spec fn is_cmdline_name(n: Seq<char>) -> bool {
    n.len() > 8 && ends_with(n, ".cmdline"@)
}

/// The snippet texts of the readable `*.cmdline` entries that are not links
/// to `/dev/null`, in order.
pub open spec fn local_snippets(s: Seq<SnippetView>) -> Seq<Seq<char>>
    decreases s.len(),
{
    if s.len() == 0 {
        seq![]
    } else {
        let e = s.last();
        let rest = local_snippets(s.drop_last());
        if is_cmdline_name(e.0) && !e.1 && e.2 is Some {
            rest.push(snippet_of(e.2->0))
        } else {
            rest
        }
    }
}

/// The names of the `*.cmdline` entries that are links to `/dev/null`, in order.
pub open spec fn excluded_names(s: Seq<SnippetView>) -> Seq<Seq<char>>
    decreases s.len(),
{
    if s.len() == 0 {
        seq![]
    } else {
        let e = s.last();
        let rest = excluded_names(s.drop_last());
        if is_cmdline_name(e.0) && e.1 {
            rest.push(e.0)
        } else {
            rest
        }
    }
}

/// Every `*.cmdline` entry that links to `/dev/null` names an excluded snippet.
pub proof fn lemma_dev_null_excludes(s: Seq<SnippetView>, k: int)
    requires
        0 <= k < s.len(),
        is_cmdline_name(s[k].0),
        s[k].1,
    ensures
        excluded_names(s).contains(s[k].0),
    decreases s.len(),
{
    let e = excluded_names(s);
    if k == s.len() - 1 {
        assert(e[e.len() - 1] == s[k].0);
    } else {
        lemma_dev_null_excludes(s.drop_last(), k);
        let prev = excluded_names(s.drop_last());
        let j = choose|j: int| 0 <= j < prev.len() && prev[j] == s[k].0;
        if is_cmdline_name(s.last().0) && s.last().1 {
            assert(e == prev.push(s.last().0));
            assert(e[j] == s[k].0);
        } else {
            assert(e == prev);
        }
    }
}

/// A global snippet shadowed by a `/dev/null` link of the same name in
/// `/etc/kernel/cmdline.d` leaves no trace in a loader entry: the stanza
/// written for a kernel is the same with or without that snippet among the
/// entry's snippets.
pub proof fn lemma_dev_null_snippet_not_in_stanza(
    schema: Schema,
    asset_dir: Seq<char>,
    base: Seq<Seq<char>>,
    etc: Seq<SnippetView>,
    k: int,
    cmdlines: Seq<(Seq<char>, Seq<char>)>,
    j: int,
    kernel: Kernel,
)
    requires
        0 <= k < etc.len(),
        is_cmdline_name(etc[k].0),
        etc[k].1,
        0 <= j < cmdlines.len(),
        cmdlines[j].0 == etc[k].0,
    ensures
        stanza_of(schema, asset_dir, entry_cmdline_of(base, cmdlines, excluded_names(etc)), kernel)
            == stanza_of(
            schema,
            asset_dir,
            entry_cmdline_of(base, cmdlines.remove(j), excluded_names(etc)),
            kernel,
        ),
{
    lemma_dev_null_excludes(etc, k);
    lemma_excluded_snippet_ignored(base, cmdlines, excluded_names(etc), j);
}

/// The mountpoints to use: those in use, else `<root>/boot` for an XBOOTLDR
/// and `<root>/efi` for the ESP; an XBOOTLDR slot that would share the ESP's
/// mountpoint while no XBOOTLDR exists moves to `<root>/xboot`.
pub open spec fn chosen_mounts(root: Seq<char>, env: BootEnvironment) -> (Option<Seq<char>>, Option<
    Seq<char>,
>) {
    let x = if env.xboot_mountpoint is Some {
        opt_view(env.xboot_mountpoint)
    } else if env.xbootldr is Some {
        Some(join(root, "boot"@))
    } else {
        None
    };
    let e = if env.esp_mountpoint is Some {
        opt_view(env.esp_mountpoint)
    } else if env.esp is Some {
        Some(join(root, "efi"@))
    } else {
        None
    };
    if x is Some && e is Some && x == e && env.xbootldr is None {
        (Some(join(root, "xboot"@)), e)
    } else {
        (x, e)
    }
}

fn sort_snippets(items: Vec<EtcSnippet>) -> (r: Vec<EtcSnippet>)
    ensures
        names_sorted(snippet_views(r@)),
        snippet_views(r@).to_multiset() == snippet_views(items@).to_multiset(),
{
    let mut rest = items;
    let mut r: Vec<EtcSnippet> = Vec::new();
    while rest.len() > 0
        invariant
            names_sorted(snippet_views(r@)),
            snippet_views(r@).to_multiset().add(snippet_views(rest@).to_multiset()) == snippet_views(
                items@,
            ).to_multiset(),
        decreases rest@.len(),
    {
        let ghost before_rest = rest@;
        let x = rest.pop().unwrap();
        proof {
            assert(before_rest == rest@.push(x));
            assert(snippet_views(before_rest) =~= snippet_views(rest@).push(snippet_view(x)));
        }
        let key = chars_of(x.name.as_str());
        let mut pos: usize = 0;
        while pos < r.len() && lex_le_chars(&chars_of(r[pos].name.as_str()), &key)
            invariant
                pos <= r@.len(),
                key@ == x.name@,
                forall|i: int| 0 <= i < pos ==> lex_le((#[trigger] r@[i]).name@, key@),
            decreases r@.len() - pos,
        {
            pos = pos + 1;
        }
        proof {
            if pos < r@.len() {
                lemma_lex_total(r@[pos as int].name@, key@);
            }
        }
        let ghost old_r = r@;
        r.insert(pos, x);
        proof {
            assert(r@ == old_r.insert(pos as int, x));
            assert(snippet_views(r@) =~= snippet_views(old_r).insert(pos as int, snippet_view(x)));
            vstd::seq_lib::to_multiset_insert(snippet_views(old_r), pos as int, snippet_view(x));
            vstd::seq_lib::to_multiset_build(snippet_views(rest@), snippet_view(x));
            assert(snippet_views(r@).to_multiset().add(snippet_views(rest@).to_multiset())
                =~= snippet_views(items@).to_multiset());
            let v = snippet_views(r@);
            let ov = snippet_views(old_r);
            assert forall|i: int| 0 <= i < v.len() - 1 implies lex_le(#[trigger] v[i].0, v[i + 1].0) by {
                if i < pos - 1 {
                    assert(v[i] == ov[i] && v[i + 1] == ov[i + 1]);
                } else if i == pos - 1 {
                    assert(v[i] == ov[i]);
                } else if i == pos {
                    assert(v[i + 1] == ov[i]);
                } else {
                    assert(v[i] == ov[i - 1] && v[i + 1] == ov[i]);
                }
            }
        }
    }
    proof {
        assert(snippet_views(rest@).to_multiset() =~= vstd::multiset::Multiset::empty());
        assert(snippet_views(r@).to_multiset().add(vstd::multiset::Multiset::empty())
            =~= snippet_views(r@).to_multiset());
    }
    r
}

fn is_cmdline_file(n: &String) -> (r: bool)
    ensures
        r == is_cmdline_name(n@),
{
    proof {
        reveal_strlit(".cmdline");
    }
    let c = chars_of(n.as_str());
    c.len() > 8 && crate::text::has_suffix(&c, &chars_of(".cmdline"))
}

impl<'a> Manager<'a> {
    /// The manager for `root`: the command line is the root device's
    /// fragment, `rw`, then the snippets of `/etc/kernel/cmdline.d` in name
    /// order; those entries that link to `/dev/null` instead exclude the
    /// global snippet of the same name.
    pub fn new(
        root: String,
        image_mode: bool,
        root_cmdline: String,
        etc: Vec<EtcSnippet>,
        boot_env: BootEnvironment,
    ) -> (r: Self)
        ensures
            r.root == root,
            r.image_mode == image_mode,
            r.entries@.len() == 0,
            r.bootloader_assets@.len() == 0,
            r.boot_env == boot_env,
            (opt_view(r.mounts.xbootldr), opt_view(r.mounts.esp)) == chosen_mounts(root@, boot_env),
            exists|s: Seq<SnippetView>|
                s.to_multiset() == snippet_views(etc@).to_multiset() && names_sorted(s) && string_views(
                    r.cmdline@,
                ) == seq![root_cmdline@, "rw"@] + local_snippets(s) && string_views(
                    r.system_excluded_snippets@,
                ) == excluded_names(s),
    {
        let sorted = sort_snippets(etc);
        let ghost sv = snippet_views(sorted@);
        let mut cmdline: Vec<String> = Vec::new();
        cmdline.push(root_cmdline);
        proof {
            reveal_strlit("rw");
        }
        cmdline.push("rw".to_owned());
        let ghost head = string_views(cmdline@);
        assert(head =~= seq![root_cmdline@, "rw"@]);
        let mut excluded: Vec<String> = Vec::new();
        let mut i: usize = 0;
        while i < sorted.len()
            invariant
                i <= sorted@.len(),
                sv == snippet_views(sorted@),
                string_views(cmdline@) == head + local_snippets(sv.subrange(0, i as int)),
                string_views(excluded@) == excluded_names(sv.subrange(0, i as int)),
            decreases sorted@.len() - i,
        {
            proof {
                assert(sv.subrange(0, i + 1).drop_last() == sv.subrange(0, i as int));
                assert(sv.subrange(0, i + 1).last() == snippet_view(sorted@[i as int]));
            }
            let e = &sorted[i];
            if is_cmdline_file(&e.name) {
                if e.dev_null_link {
                    let ghost prev = excluded@;
                    excluded.push(e.name.clone());
                    assert(string_views(excluded@) =~= string_views(prev).push(e.name@));
                } else {
                    match &e.text {
                        Some(t) => {
                            let ghost prev = cmdline@;
                            cmdline.push(cmdline_snippet_text(t.as_str()));
                            assert(string_views(cmdline@) =~= string_views(prev).push(snippet_of(t@)));
                        },
                        None => {},
                    }
                }
            }
            assert(string_views(cmdline@) =~= head + local_snippets(sv.subrange(0, i + 1)));
            assert(string_views(excluded@) =~= excluded_names(sv.subrange(0, i + 1)));
            i = i + 1;
        }
        assert(sv.subrange(0, sorted@.len() as int) == sv);
        proof {
            reveal_strlit("boot");
            reveal_strlit("efi");
            reveal_strlit("xboot");
        }
        let mut xbootldr = if let Some(p) = &boot_env.xboot_mountpoint {
            Some(p.clone())
        } else if boot_env.xbootldr.is_some() {
            Some(join_path(root.as_str(), "boot"))
        } else {
            None
        };
        let esp = if let Some(p) = &boot_env.esp_mountpoint {
            Some(p.clone())
        } else if boot_env.esp.is_some() {
            Some(join_path(root.as_str(), "efi"))
        } else {
            None
        };
        let collide = match (&xbootldr, &esp) {
            (Some(x), Some(e)) => *x == *e && boot_env.xbootldr.is_none(),
            _ => false,
        };
        if collide {
            xbootldr = Some(join_path(root.as_str(), "xboot"));
        }
        Manager {
            root,
            image_mode,
            entries: Vec::new(),
            bootloader_assets: Vec::new(),
            boot_env,
            mounts: Mounts { xbootldr, esp },
            cmdline,
            system_excluded_snippets: excluded,
        }
    }

    /// Set the system kernels to use for sync operations
    pub fn with_entries(self, entries: Vec<Entry<'a>>) -> (r: Self)
        ensures
            r.entries == entries,
            r.bootloader_assets == self.bootloader_assets,
            r.cmdline == self.cmdline,
            r.boot_env == self.boot_env,
    {
        Self { entries, ..self }
    }

    /// Update the set of bootloader assets
    pub fn with_bootloader_assets(self, assets: Vec<String>) -> (r: Self)
        ensures
            r.bootloader_assets == assets,
            r.entries == self.entries,
            r.cmdline == self.cmdline,
            r.boot_env == self.boot_env,
    {
        Self { bootloader_assets: assets, ..self }
    }

    /// Returns the boot environment
    pub fn boot_environment(&self) -> (r: &BootEnvironment)
        ensures
            *r == self.boot_env,
    {
        &self.boot_env
    }

    /// The partitions to mount (ESP and XBOOTLDR devices not mounted yet),
    /// in the order to unmount them: XBOOTLDR before the ESP. They are
    /// mounted in the reverse order. None in image mode.
    pub fn mount_partitions(&self) -> (r: Result<Vec<PendingMount>, Error>)
        ensures
            self.image_mode ==> (r matches Ok(v) && v@.len() == 0),
            !self.image_mode ==> match r {
                Ok(v) => {
                    let esp_due = self.boot_env.esp is Some && self.boot_env.esp_mountpoint is None;
                    let x_due = self.boot_env.xbootldr is Some && self.boot_env.xboot_mountpoint is None;
                    &&& (esp_due ==> self.mounts.esp is Some)
                    &&& (x_due ==> self.mounts.xbootldr is Some)
                    &&& v@.len() == (if esp_due { 1int } else { 0 }) + (if x_due { 1int } else { 0 })
                    &&& (x_due ==> v@[0].device@ == self.boot_env.xbootldr->0@ && v@[0].mountpoint@
                        == self.mounts.xbootldr->0@)
                    &&& (esp_due ==> v@[v@.len() - 1].device@ == self.boot_env.esp->0@ && v@[v@.len()
                        - 1].mountpoint@ == self.mounts.esp->0@)
                },
                Err(e) => (e == Error::NoESP && self.boot_env.esp is Some
                    && self.boot_env.esp_mountpoint is None && self.mounts.esp is None) || (e
                    == Error::NoXBOOTLDR && self.boot_env.xbootldr is Some
                    && self.boot_env.xboot_mountpoint is None && self.mounts.xbootldr is None),
            },
    {
        let mut r: Vec<PendingMount> = Vec::new();
        if self.image_mode {
            return Ok(r);
        }
        if let Some(hw) = &self.boot_env.esp {
            if self.boot_env.esp_mountpoint.is_none() {
                match &self.mounts.esp {
                    Some(mp) => r.insert(0, PendingMount { device: hw.clone(), mountpoint: mp.clone() }),
                    None => return Err(Error::NoESP),
                }
            }
        }
        if let Some(hw) = &self.boot_env.xbootldr {
            if self.boot_env.xboot_mountpoint.is_none() {
                match &self.mounts.xbootldr {
                    Some(mp) => r.insert(0, PendingMount { device: hw.clone(), mountpoint: mp.clone() }),
                    None => return Err(Error::NoXBOOTLDR),
                }
            }
        }
        Ok(r)
    }

    /// In image mode the ESP must already be mounted before a sync.
    pub fn check_sync(&self) -> (r: Result<(), Error>)
        ensures
            r is Err <==> (self.image_mode && self.boot_env.esp is Some
                && self.boot_env.esp_mountpoint is None),
            r matches Err(e) ==> e == Error::UnmountedESP(self.boot_env.esp->0),
    {
        if self.image_mode {
            if let Some(esp) = &self.boot_env.esp {
                if self.boot_env.esp_mountpoint.is_none() {
                    return Err(Error::UnmountedESP(esp.clone()));
                }
            }
        }
        Ok(())
    }
}

} // verus!
