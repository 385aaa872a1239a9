//! Installed builds and the directory-scoped active-build resolver.
//!
//! A build is a resolved, on-disk toolchain installation. A synthetic
//! `system` build always exists, pointing at the platform's default prefix.
//! Which build is active for a shell location is decided by scope markers:
//! small files naming a build, looked up from the nearest ancestor directory
//! outward, then at a global location, with the system build as the final
//! fallback.

use vstd::prelude::*;
use vstd::multiset::Multiset;
use crate::config::Dirs;
use crate::error::Error;
use crate::text::{
    after_last_slash, chars_le, joined_path, lemma_after_last_slash, lemma_chars_le_refl,
    lemma_chars_le_total, lemma_chars_le_trans, path_join, str_eq, str_le, texts,
};

verus! {

broadcast use vstd::seq_lib::group_to_multiset_ensures;

/// The file name of a scope marker.
pub const MARKER_FILE: &'static str = ".llvmmgmt";

/// A resolved, on-disk toolchain installation.
#[derive(Debug, PartialEq)]
pub struct Build {
    /// Name and identity of the build.
    pub name: String,
    /// The prefix where the installation lives.
    pub prefix: String,
    /// Where the decision that made this build active was found, for
    /// diagnostics only; not part of identity.
    pub scope_marker: Option<String>,
}

/// The mathematical shape of a `Build`.
#[verifier::ext_equal]
pub struct BuildView {
    pub name: Seq<char>,
    pub prefix: Seq<char>,
    pub scope_marker: Option<Seq<char>>,
}

impl View for Build {
    type V = BuildView;

    open spec fn view(&self) -> BuildView {
        BuildView {
            name: self.name@,
            prefix: self.prefix@,
            scope_marker: match self.scope_marker {
                Some(ref p) => Some(p@),
                None => None,
            },
        }
    }
}

/// The synthetic build that stands for the platform's own installation.
pub open spec fn system_build_view() -> BuildView {
    BuildView { name: "system"@, prefix: "/usr"@, scope_marker: None }
}

/// The build a name denotes: the synthetic system build for `system`, else
/// an installation named below the data root.
pub open spec fn named_build_view(name: Seq<char>, data: Seq<char>) -> BuildView {
    if name == "system"@ {
        system_build_view()
    } else {
        BuildView { name, prefix: joined_path(data, name), scope_marker: None }
    }
}

impl Build {
    /// The synthetic system build.
    pub fn system() -> (r: Build)
        ensures
            r@ == system_build_view(),
    {
        Build { name: "system".to_owned(), prefix: "/usr".to_owned(), scope_marker: None }
    }

    /// The build installed at a prefix: named by the prefix's last path
    /// component.
    pub fn from_path(path: &str) -> (r: Build)
        ensures
            r@ == (BuildView {
                name: after_last_slash(path@),
                prefix: path@,
                scope_marker: None,
            }),
    {
        let n = path.unicode_len();
        let mut cut: usize = 0;
        let mut i: usize = 0;
        while i < n
            invariant
                0 <= cut <= i <= n,
                n == path@.len(),
                cut == 0 || path@[cut - 1] == '/',
                forall|j: int| cut <= j < i ==> path@[j] != '/',
            decreases n - i,
        {
            if path.get_char(i) == '/' {
                cut = i + 1;
            }
            i += 1;
        }
        let name = path.substring_char(cut, n);
        proof {
            lemma_after_last_slash(path@, cut as int);
        }
        Build { name: name.to_owned(), prefix: path.to_owned(), scope_marker: None }
    }

    /// The build a name denotes.
    pub fn from_name(name: &str, dirs: &Dirs) -> (r: Build)
        ensures
            r@ == named_build_view(name@, dirs.data@),
    {
        if str_eq(name, "system") {
            Build::system()
        } else {
            Build {
                name: name.to_owned(),
                prefix: path_join(dirs.data.as_str(), name),
                scope_marker: None,
            }
        }
    }

    /// The build's name.
    pub fn name(&self) -> (r: &str)
        ensures
            r@ == self@.name,
    {
        self.name.as_str()
    }

    /// The build's installation prefix.
    pub fn prefix(&self) -> (r: &str)
        ensures
            r@ == self@.prefix,
    {
        self.prefix.as_str()
    }

    /// Where the decision that made this build active was found, if any.
    pub fn env_path(&self) -> (r: Option<&str>)
        ensures
            match r {
                Some(p) => self@.scope_marker == Some(p@),
                None => self@.scope_marker is None,
            },
    {
        match &self.scope_marker {
            Some(p) => Some(p.as_str()),
            None => None,
        }
    }

    /// The file name of this build's portable archive.
    pub fn archive_file_name(&self) -> (r: String)
        ensures
            r@ == self@.name + ".tar.xz"@,
    {
        crate::text::concat2(self.name.as_str(), ".tar.xz")
    }

    /// The argument list that packs this build's directory tree into its
    /// archive, to be run by the external archiver inside the data root.
    pub fn archive_args(&self, verbose: bool) -> (r: Vec<String>)
        ensures
            texts(r@) == seq![
                (if verbose {
                    "cvf"@
                } else {
                    "cf"@
                }),
                self@.name + ".tar.xz"@,
                "--use-compress-prog=pixz"@,
                self@.name,
            ],
    {
        let mut v: Vec<String> = Vec::new();
        if verbose {
            v.push("cvf".to_owned());
        } else {
            v.push("cf".to_owned());
        }
        v.push(self.archive_file_name());
        v.push("--use-compress-prog=pixz".to_owned());
        v.push(self.name.clone());
        proof {
            assert(texts(v@) =~= seq![
                (if verbose {
                    "cvf"@
                } else {
                    "cf"@
                }),
                self@.name + ".tar.xz"@,
                "--use-compress-prog=pixz"@,
                self@.name,
            ]);
        }
        v
    }

    /// Where this build's archive is written.
    pub fn archive_path(&self, dirs: &Dirs) -> (r: String)
        ensures
            r@ == joined_path(dirs.data@, self@.name + ".tar.xz"@),
    {
        let file = self.archive_file_name();
        path_join(dirs.data.as_str(), file.as_str())
    }
}

/// The argument list that unpacks an archive, to be run by the external
/// archiver inside the data root.
pub fn expand_args(archive: &str, verbose: bool) -> (r: Vec<String>)
    ensures
        texts(r@) == seq![
            (if verbose {
                "xvf"@
            } else {
                "xf"@
            }),
            archive@,
        ],
{
    let mut v: Vec<String> = Vec::new();
    if verbose {
        v.push("xvf".to_owned());
    } else {
        v.push("xf".to_owned());
    }
    v.push(archive.to_owned());
    proof {
        assert(texts(v@) =~= seq![
            (if verbose {
                "xvf"@
            } else {
                "xf"@
            }),
            archive@,
        ]);
    }
    v
}

/// The scope-marker file of a directory.
pub fn marker_path(dir: &str) -> (r: String)
    ensures
        r@ == joined_path(dir@, ".llvmmgmt"@),
{
    path_join(dir, MARKER_FILE)
}

/// A named build that exists on disk, or the reason there is none.
pub fn get_existing_build(name: &str, exists: bool, dirs: &Dirs) -> (r: Result<Build, Error>)
    ensures
        exists ==> (r matches Ok(b) && b@ == named_build_view(name@, dirs.data@)),
        !exists ==> (r matches Err(e) && (e matches Error::InvalidBuild { name: n, message: m }
            && n@ == name@ && m@ == "Build does not exist"@)),
{
    if exists {
        Ok(Build::from_name(name, dirs))
    } else {
        Err(Error::InvalidBuild {
            name: name.to_owned(),
            message: "Build does not exist".to_owned(),
        })
    }
}

/// Builds ordered by name.
pub open spec fn builds_sorted(s: Seq<Build>) -> bool {
    forall|i: int, j: int| 0 <= i < j < s.len() ==> chars_le(#[trigger] s[i]@.name, #[trigger] s[j]@.name)
}

/// Sort builds by name. The result holds exactly the given builds.
fn sort_builds(v: Vec<Build>) -> (r: Vec<Build>)
    ensures
        builds_sorted(r@),
        r@.to_multiset() == v@.to_multiset(),
{
    let ghost input = v@;
    let mut v = v;
    let mut out: Vec<Build> = Vec::new();
    while v.len() > 0
        invariant
            out@.to_multiset().add(v@.to_multiset()) == input.to_multiset(),
            builds_sorted(out@),
            forall|i: int, j: int|
                0 <= i < out@.len() && 0 <= j < v@.len() ==> chars_le(
                    #[trigger] out@[i]@.name,
                    #[trigger] v@[j]@.name,
                ),
        decreases v@.len(),
    {
        // Find the least remaining name.
        let mut m: usize = 0;
        let mut k: usize = 1;
        proof {
            lemma_chars_le_refl(v@[0]@.name);
        }
        while k < v.len()
            invariant
                0 <= m < k <= v@.len(),
                v@.len() > 0,
                forall|j: int| 0 <= j < k ==> chars_le(v@[m as int]@.name, #[trigger] v@[j]@.name),
            decreases v@.len() - k,
        {
            if str_le(v[k].name.as_str(), v[m].name.as_str()) {
                proof {
                    assert forall|j: int| 0 <= j < k + 1 implies chars_le(
                        v@[k as int]@.name,
                        #[trigger] v@[j]@.name,
                    ) by {
                        if j < k {
                            lemma_chars_le_trans(v@[k as int]@.name, v@[m as int]@.name, v@[j]@.name);
                        } else {
                            lemma_chars_le_refl(v@[k as int]@.name);
                        }
                    }
                }
                m = k;
            } else {
                proof {
                    lemma_chars_le_total(v@[m as int]@.name, v@[k as int]@.name);
                }
            }
            k += 1;
        }
        let ghost pre_v = v@;
        let ghost pre_out = out@;
        let x = v.remove(m);
        let ghost xv = x@;
        out.push(x);
        proof {
            assert(pre_v.contains(pre_v[m as int]));
            assert(out@.to_multiset() =~= pre_out.to_multiset().insert(pre_v[m as int]));
            assert(v@.to_multiset() =~= pre_v.to_multiset().remove(pre_v[m as int]));
            assert(out@.to_multiset().add(v@.to_multiset()) =~= input.to_multiset());
            // Every remaining element came from the old list past or before m.
            assert forall|j: int| 0 <= j < v@.len() implies chars_le(
                xv.name,
                #[trigger] v@[j]@.name,
            ) by {
                if j < m {
                    assert(v@[j] == pre_v[j]);
                } else {
                    assert(v@[j] == pre_v[j + 1]);
                }
            }
            assert forall|i: int, j: int|
                0 <= i < out@.len() && 0 <= j < v@.len() implies chars_le(
                #[trigger] out@[i]@.name,
                #[trigger] v@[j]@.name,
            ) by {
                if i < pre_out.len() {
                    if j < m {
                        assert(v@[j] == pre_v[j]);
                    } else {
                        assert(v@[j] == pre_v[j + 1]);
                    }
                }
            }
            assert forall|i: int, j: int| 0 <= i < j < out@.len() implies chars_le(
                #[trigger] out@[i]@.name,
                #[trigger] out@[j]@.name,
            ) by {
                if j == out@.len() - 1 {
                    assert(pre_v.contains(pre_v[m as int]));
                    assert(chars_le(out@[i]@.name, xv.name));
                }
            }
        }
    }
    proof {
        assert(v@.to_multiset() =~= Multiset::<Build>::empty());
        assert(out@.to_multiset() =~= input.to_multiset());
    }
    out
}

/// Every installed build, sorted by name, with the synthetic system build
/// always first. The caller supplies the builds it discovered under the data
/// root.
pub fn builds(local: Vec<Build>) -> (r: Vec<Build>)
    ensures
        r@.len() == local@.len() + 1,
        r@[0]@ == system_build_view(),
        builds_sorted(r@.skip(1)),
        r@.skip(1).to_multiset() == local@.to_multiset(),
{
    let mut r: Vec<Build> = Vec::new();
    r.push(Build::system());
    let mut sorted = sort_builds(local);
    let ghost sorted_view = sorted@;
    r.append(&mut sorted);
    proof {
        assert(r@.skip(1) =~= sorted_view);
        assert(sorted_view.to_multiset().len() == local@.to_multiset().len());
        assert(sorted_view.len() == local@.len());
    }
    r
}

/// One inspected scope level: where its marker file lives, the build name the
/// marker holds, and whether that build exists on disk.
#[derive(Debug, PartialEq)]
pub struct Probe {
    /// The path of the marker file that named the build.
    pub marker_file: String,
    /// The name the marker holds.
    pub name: String,
    /// Whether the named build exists on disk.
    pub exists: bool,
}

/// The mathematical shape of a `Probe`.
#[verifier::ext_equal]
pub struct ProbeView {
    pub marker_file: Seq<char>,
    pub name: Seq<char>,
    pub exists: bool,
}

impl View for Probe {
    type V = ProbeView;

    open spec fn view(&self) -> ProbeView {
        ProbeView { marker_file: self.marker_file@, name: self.name@, exists: self.exists }
    }
}

/// The views of a sequence of probes.
pub open spec fn probe_views(ps: Seq<Probe>) -> Seq<ProbeView> {
    Seq::new(ps.len(), |i: int| ps[i]@)
}

/// A build made active by the marker at one scope level.
pub open spec fn probe_build_view(p: ProbeView, data: Seq<char>) -> BuildView {
    BuildView { scope_marker: Some(p.marker_file), ..named_build_view(p.name, data) }
}

/// Strict nearest-wins scope resolution: the first probe whose named build
/// exists decides; a probe naming a build that does not exist is ignored and
/// the search continues; when no probe decides, the system build is active.
pub open spec fn seek_result(ps: Seq<ProbeView>, data: Seq<char>) -> BuildView
    decreases ps.len(),
{
    if ps.len() == 0 {
        system_build_view()
    } else if ps[0].exists {
        probe_build_view(ps[0], data)
    } else {
        seek_result(ps.skip(1), data)
    }
}

/// Resolve the active build from the inspected scope levels, ordered from the
/// nearest directory outward, the global level last.
pub fn seek_build(probes: &Vec<Probe>, dirs: &Dirs) -> (r: Build)
    ensures
        r@ == seek_result(probe_views(probes@), dirs.data@),
{
    let ghost pv = probe_views(probes@);
    proof {
        assert(pv.skip(0) =~= pv);
    }
    let mut i: usize = 0;
    while i < probes.len()
        invariant
            0 <= i <= probes@.len(),
            pv == probe_views(probes@),
            seek_result(pv, dirs.data@) == seek_result(pv.skip(i as int), dirs.data@),
        decreases probes@.len() - i,
    {
        if probes[i].exists {
            let mut b = Build::from_name(probes[i].name.as_str(), dirs);
            b.scope_marker = Some(probes[i].marker_file.clone());
            proof {
                assert(pv.skip(i as int)[0] == pv[i as int]);
                assert(b@ =~= probe_build_view(pv[i as int], dirs.data@));
            }
            return b;
        }
        proof {
            assert(pv.skip(i as int)[0] == pv[i as int]);
            assert(pv.skip(i as int).skip(1) =~= pv.skip(i as int + 1));
        }
        i += 1;
    }
    proof {
        assert(pv.skip(i as int).len() == 0);
    }
    Build::system()
}

/// A probe that names a missing build never decides resolution: dropping it
/// leaves the result unchanged.
pub proof fn lemma_seek_skips_missing(ps: Seq<ProbeView>, data: Seq<char>)
    requires
        ps.len() > 0,
        !ps[0].exists,
    ensures
        seek_result(ps, data) == seek_result(ps.skip(1), data),
{
}

/// Nearest wins: when the first existing hit is at one level, resolution
/// returns exactly that level's build, whatever stands behind it.
pub proof fn lemma_seek_first_hit(ps: Seq<ProbeView>, data: Seq<char>, k: int)
    requires
        0 <= k < ps.len(),
        ps[k].exists,
        forall|j: int| 0 <= j < k ==> !(#[trigger] ps[j]).exists,
    ensures
        seek_result(ps, data) == probe_build_view(ps[k], data),
    decreases k,
{
    if k > 0 {
        lemma_seek_first_hit(ps.skip(1), data, k - 1);
    }
}

/// When no level holds an existing build, resolution falls back to the
/// system build.
pub proof fn lemma_seek_system_fallback(ps: Seq<ProbeView>, data: Seq<char>)
    requires
        forall|j: int| 0 <= j < ps.len() ==> !(#[trigger] ps[j]).exists,
    ensures
        seek_result(ps, data) == system_build_view(),
    decreases ps.len(),
{
    if ps.len() > 0 {
        lemma_seek_system_fallback(ps.skip(1), data);
    }
}

} // verus!
