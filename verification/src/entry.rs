//! The catalog of build descriptors ("entries").
//!
//! An entry describes how to obtain and compile one toolchain variant: either
//! a *remote* entry, fetched from a URL together with its auxiliary tools, or
//! a *local* entry, built from a source tree already on disk. An entry's
//! setting must carry exactly one of `url` or `path`; carrying both, or
//! neither, is a construction error.

use vstd::prelude::*;
use crate::config::Dirs;
use crate::error::Error;
use crate::generator::{
    generator_build_option_texts, generator_of, generator_option_texts, build_type_chars,
    BuildType, CMakeGenerator,
};
use crate::text::{concat2, join_semicolon, joined_path, path_join, sep_joined, str_eq, texts};
use crate::version::{
    name_version, parse_semver_name, req_eval, version_chars, version_le, Version,
};

verus! {

/// An auxiliary component fetched into a path relative to the primary source
/// tree.
#[derive(Debug, PartialEq)]
pub struct Tool {
    /// Name of the tool; also selects the default relative path.
    pub name: String,
    /// Where the tool's source is fetched from.
    pub url: String,
    /// Branch to fetch, when the source is a branching repository.
    pub branch: Option<String>,
    /// Where below the primary source tree the tool is placed; when absent it
    /// is derived from the name.
    pub relative_path: Option<String>,
}

/// The mathematical shape of a `Tool`.
#[verifier::ext_equal]
pub struct ToolView {
    pub name: Seq<char>,
    pub url: Seq<char>,
    pub branch: Option<Seq<char>>,
    pub relative_path: Option<Seq<char>>,
}

/// The view of an optional text.
pub open spec fn opt_text(o: Option<String>) -> Option<Seq<char>> {
    match o {
        Some(s) => Some(s@),
        None => None,
    }
}

/// The views of a sequence of tools.
pub open spec fn tool_views(ts: Seq<Tool>) -> Seq<ToolView> {
    Seq::new(ts.len(), |i: int| ts[i]@)
}

/// The views of a sequence of key/value pairs.
pub open spec fn pair_texts(ps: Seq<(String, String)>) -> Seq<(Seq<char>, Seq<char>)> {
    Seq::new(ps.len(), |i: int| (ps[i].0@, ps[i].1@))
}

impl View for Tool {
    type V = ToolView;

    open spec fn view(&self) -> ToolView {
        ToolView {
            name: self.name@,
            url: self.url@,
            branch: opt_text(self.branch),
            relative_path: opt_text(self.relative_path),
        }
    }
}

/// The relative path a tool name implies when none is given explicitly:
/// front-end compiler, linker, debugger and polyhedral optimizer live under
/// `tools`, the extra clang tools under a fixed nested path, runtime
/// libraries under `runtimes`, parallel-execution support under `projects`.
/// An unknown name implies none.
pub open spec fn default_rel_path(name: Seq<char>) -> Option<Seq<char>> {
    if name == "clang"@ || name == "lld"@ || name == "lldb"@ || name == "polly"@ {
        Some("tools/"@ + name)
    } else if name == "clang-tools-extra"@ {
        Some("tools/clang/tools/extra"@)
    } else if name == "compiler-rt"@ || name == "libcxx"@ || name == "libcxxabi"@ || name
        == "libunwind"@ {
        Some("runtimes/"@ + name)
    } else if name == "openmp"@ {
        Some("projects/"@ + name)
    } else {
        None
    }
}

/// The relative path of a tool: the explicit one when set, else the one its
/// name implies.
pub open spec fn rel_path_spec(t: ToolView) -> Option<Seq<char>> {
    match t.relative_path {
        Some(p) => Some(p),
        None => default_rel_path(t.name),
    }
}

impl Tool {
    /// A tool with only a name and a URL set.
    pub fn new(name: &str, url: &str) -> (t: Tool)
        ensures
            t@ == (ToolView { name: name@, url: url@, branch: None, relative_path: None }),
    {
        Tool { name: name.to_owned(), url: url.to_owned(), branch: None, relative_path: None }
    }

    /// The path below the primary source tree where this tool is placed. An
    /// unknown name with no explicit relative path is a configuration error,
    /// not a silent default.
    pub fn rel_path(&self) -> (r: Result<String, Error>)
        ensures
            rel_path_spec(self@) matches Some(p) ==> (r matches Ok(s) && s@ == p),
            rel_path_spec(self@) is None ==> (r matches Err(e) && e matches
                Error::UnknownToolPath { name } && name@ == self@.name),
    {
        match &self.relative_path {
            Some(p) => Ok(p.clone()),
            None => {
                if str_eq(self.name.as_str(), "clang") || str_eq(self.name.as_str(), "lld")
                    || str_eq(self.name.as_str(), "lldb") || str_eq(self.name.as_str(), "polly") {
                    Ok(concat2("tools/", self.name.as_str()))
                } else if str_eq(self.name.as_str(), "clang-tools-extra") {
                    Ok("tools/clang/tools/extra".to_owned())
                } else if str_eq(self.name.as_str(), "compiler-rt")
                    || str_eq(self.name.as_str(), "libcxx")
                    || str_eq(self.name.as_str(), "libcxxabi")
                    || str_eq(self.name.as_str(), "libunwind") {
                    Ok(concat2("runtimes/", self.name.as_str()))
                } else if str_eq(self.name.as_str(), "openmp") {
                    Ok(concat2("projects/", self.name.as_str()))
                } else {
                    Err(Error::UnknownToolPath { name: self.name.clone() })
                }
            },
        }
    }
}

impl Clone for Tool {
    /// A clone is equal to the original.
    fn clone(&self) -> (r: Self)
        ensures
            r == *self,
    {
        Tool {
            name: self.name.clone(),
            url: self.url.clone(),
            branch: match &self.branch {
                Some(b) => Some(b.clone()),
                None => None,
            },
            relative_path: match &self.relative_path {
                Some(p) => Some(p.clone()),
                None => None,
            },
        }
    }
}

/// The declarative payload of an entry, as written by the user or synthesized
/// for an official release.
#[derive(Debug, PartialEq)]
pub struct EntrySetting {
    /// URL of the remote primary source; exactly one of `url` and `path` must
    /// be set.
    pub url: Option<String>,
    /// Path of a local primary source tree.
    pub path: Option<String>,
    /// Auxiliary tools fetched next to the primary source; only meaningful
    /// with `url`.
    pub tools: Vec<Tool>,
    /// Target architectures to build; empty means every backend.
    pub target: Vec<String>,
    /// The generator backend handed to the external builder.
    pub generator: CMakeGenerator,
    /// The build type handed to the external builder.
    pub build_type: BuildType,
    /// Extra build options, inserted verbatim as builder definitions in this
    /// order.
    pub option: Vec<(String, String)>,
}

/// The mathematical shape of an `EntrySetting`.
#[verifier::ext_equal]
pub struct SettingView {
    pub url: Option<Seq<char>>,
    pub path: Option<Seq<char>>,
    pub tools: Seq<ToolView>,
    pub target: Seq<Seq<char>>,
    pub generator: CMakeGenerator,
    pub build_type: BuildType,
    pub option: Seq<(Seq<char>, Seq<char>)>,
}

impl View for EntrySetting {
    type V = SettingView;

    open spec fn view(&self) -> SettingView {
        SettingView {
            url: opt_text(self.url),
            path: opt_text(self.path),
            tools: tool_views(self.tools@),
            target: texts(self.target@),
            generator: self.generator,
            build_type: self.build_type,
            option: pair_texts(self.option@),
        }
    }
}

/// The shape of an empty setting: nothing set, platform generator, release
/// build.
pub open spec fn empty_setting() -> SettingView {
    SettingView {
        url: None,
        path: None,
        tools: seq![],
        target: seq![],
        generator: CMakeGenerator::Platform,
        build_type: BuildType::Release,
        option: seq![],
    }
}

impl Default for EntrySetting {
    /// The empty setting.
    fn default() -> (r: Self)
        ensures
            r@ == empty_setting(),
    {
        let r = EntrySetting {
            url: None,
            path: None,
            tools: Vec::new(),
            target: Vec::new(),
            generator: CMakeGenerator::Platform,
            build_type: BuildType::Release,
            option: Vec::new(),
        };
        proof {
            assert(r@ =~= empty_setting());
        }
        r
    }
}

impl Clone for EntrySetting {
    /// A clone has the same shape as the original.
    fn clone(&self) -> (r: Self)
        ensures
            r@ == self@,
    {
        let r = EntrySetting {
            url: match &self.url {
                Some(u) => Some(u.clone()),
                None => None,
            },
            path: match &self.path {
                Some(p) => Some(p.clone()),
                None => None,
            },
            tools: clone_tools(&self.tools),
            target: clone_texts(&self.target),
            generator: self.generator,
            build_type: self.build_type,
            option: clone_pairs(&self.option),
        };
        proof {
            assert(r@ =~= self@);
        }
        r
    }
}

/// An element-wise copy of a tool list.
fn clone_tools(ts: &Vec<Tool>) -> (r: Vec<Tool>)
    ensures
        r@ == ts@,
{
    let mut r: Vec<Tool> = Vec::new();
    let mut i: usize = 0;
    while i < ts.len()
        invariant
            0 <= i <= ts@.len(),
            r@ == ts@.subrange(0, i as int),
        decreases ts@.len() - i,
    {
        r.push(ts[i].clone());
        proof {
            assert(r@ =~= ts@.subrange(0, i + 1 as int));
        }
        i += 1;
    }
    proof {
        assert(ts@.subrange(0, ts@.len() as int) =~= ts@);
    }
    r
}

/// An element-wise copy of a text list.
fn clone_texts(ts: &Vec<String>) -> (r: Vec<String>)
    ensures
        r@ == ts@,
{
    let mut r: Vec<String> = Vec::new();
    let mut i: usize = 0;
    while i < ts.len()
        invariant
            0 <= i <= ts@.len(),
            r@ == ts@.subrange(0, i as int),
        decreases ts@.len() - i,
    {
        r.push(ts[i].clone());
        proof {
            assert(r@ =~= ts@.subrange(0, i + 1 as int));
        }
        i += 1;
    }
    proof {
        assert(ts@.subrange(0, ts@.len() as int) =~= ts@);
    }
    r
}

/// An element-wise copy of a key/value list.
fn clone_pairs(ps: &Vec<(String, String)>) -> (r: Vec<(String, String)>)
    ensures
        r@ == ps@,
{
    let mut r: Vec<(String, String)> = Vec::new();
    let mut i: usize = 0;
    while i < ps.len()
        invariant
            0 <= i <= ps@.len(),
            r@ == ps@.subrange(0, i as int),
        decreases ps@.len() - i,
    {
        let (k, v) = (&ps[i].0, &ps[i].1);
        r.push((k.clone(), v.clone()));
        proof {
            assert(r@ =~= ps@.subrange(0, i + 1 as int));
        }
        i += 1;
    }
    proof {
        assert(ps@.subrange(0, ps@.len() as int) =~= ps@);
    }
    r
}

/// Describes how to obtain and compile one toolchain variant.
#[derive(Debug, PartialEq)]
pub enum Entry {
    Remote {
        name: String,
        version: Option<Version>,
        url: String,
        tools: Vec<Tool>,
        setting: EntrySetting,
    },
    Local { name: String, version: Option<Version>, path: String, setting: EntrySetting },
}

/// The mathematical shape of an `Entry`.
#[verifier::ext_equal]
pub enum EntryView {
    Remote {
        name: Seq<char>,
        version: Option<Version>,
        url: Seq<char>,
        tools: Seq<ToolView>,
        setting: SettingView,
    },
    Local { name: Seq<char>, version: Option<Version>, path: Seq<char>, setting: SettingView },
}

impl View for Entry {
    type V = EntryView;

    open spec fn view(&self) -> EntryView {
        match self {
            Entry::Remote { name, version, url, tools, setting } => EntryView::Remote {
                name: name@,
                version: *version,
                url: url@,
                tools: tool_views(tools@),
                setting: setting@,
            },
            Entry::Local { name, version, path, setting } => EntryView::Local {
                name: name@,
                version: *version,
                path: path@,
                setting: setting@,
            },
        }
    }
}

impl EntryView {
    /// The entry's name.
    pub open spec fn name(&self) -> Seq<char> {
        match *self {
            EntryView::Remote { name, .. } => name,
            EntryView::Local { name, .. } => name,
        }
    }

    /// The entry's version, when its name is a version.
    pub open spec fn version(&self) -> Option<Version> {
        match *self {
            EntryView::Remote { version, .. } => version,
            EntryView::Local { version, .. } => version,
        }
    }

    /// The entry's setting.
    pub open spec fn setting(&self) -> SettingView {
        match *self {
            EntryView::Remote { setting, .. } => setting,
            EntryView::Local { setting, .. } => setting,
        }
    }
}

/// Relies on shellexpand's `full`: expands a leading tilde and embedded
/// environment variables. The result depends on the process environment, so
/// nothing is stated of it; `None` stands for a failed lookup.
#[verifier::external_body]
fn shell_expand(path: &str) -> (r: Option<String>)
{
    match shellexpand::full(path) {
        Ok(s) => Some(s.to_string()),
        Err(_) => None,
    }
}

impl Entry {
    /// Normalize a named setting into an entry. Exactly one of `url` and
    /// `path` must be set; a local path is expanded through the environment,
    /// and an expansion failure is reported as an invalid entry.
    pub fn parse_setting(name: &str, version: Option<Version>, setting: EntrySetting) -> (r:
        Result<Entry, Error>)
        ensures
            setting@.url is Some && setting@.path is Some ==> (r matches Err(e) && e matches
                Error::InvalidEntry { name: n, message: m } && n@ == name@ && m@
                == "One of Path or URL are allowed"@),
            setting@.url is None && setting@.path is None ==> (r matches Err(e) && e matches
                Error::InvalidEntry { name: n, message: m } && n@ == name@ && m@
                == "Path nor URL are not found"@),
            setting@.path is Some && setting@.url is None ==> match r {
                Ok(entry) => entry@ matches EntryView::Local {
                    name: n,
                    version: v,
                    path: _,
                    setting: s,
                } && n == name@ && v == version && s == setting@,
                Err(e) => e matches Error::InvalidEntry { name: n, message: m } && n@ == name@
                    && m@ == "Cannot expand path"@,
            },
            setting@.url is Some && setting@.path is None ==> (r matches Ok(entry) && entry@
                == (EntryView::Remote {
                name: name@,
                version,
                url: setting@.url->Some_0,
                tools: setting@.tools,
                setting: setting@,
            })),
    {
        if setting.path.is_some() && setting.url.is_some() {
            return Err(Error::InvalidEntry {
                name: name.to_owned(),
                message: "One of Path or URL are allowed".to_owned(),
            });
        }
        if let Some(path) = &setting.path {
            // Tools are only meaningful together with a URL; with a local
            // path they are carried along unused.
            let expanded = match shell_expand(path.as_str()) {
                Some(p) => p,
                None => {
                    return Err(Error::InvalidEntry {
                        name: name.to_owned(),
                        message: "Cannot expand path".to_owned(),
                    });
                },
            };
            return Ok(Entry::Local {
                name: name.to_owned(),
                version,
                path: expanded,
                setting,
            });
        }
        if let Some(url) = &setting.url {
            let url = url.clone();
            let tools = clone_tools(&setting.tools);
            let e = Entry::Remote { name: name.to_owned(), version, url, tools, setting };
            proof {
                assert(e@ matches EntryView::Remote { tools: ts, .. } && ts =~= e@.setting().tools);
            }
            return Ok(e);
        }
        Err(Error::InvalidEntry {
            name: name.to_owned(),
            message: "Path nor URL are not found".to_owned(),
        })
    }

    /// The entry's name.
    pub fn name(&self) -> (r: &str)
        ensures
            r@ == self@.name(),
    {
        match self {
            Entry::Remote { name, .. } => name.as_str(),
            Entry::Local { name, .. } => name.as_str(),
        }
    }

    /// The entry's version, when its name is a version.
    pub fn version(&self) -> (r: Option<&Version>)
        ensures
            match r {
                Some(v) => self@.version() == Some(*v),
                None => self@.version() is None,
            },
    {
        match self {
            Entry::Remote { version, .. } => version.as_ref(),
            Entry::Local { version, .. } => version.as_ref(),
        }
    }

    /// The entry's setting.
    pub fn setting(&self) -> (r: &EntrySetting)
        ensures
            r@ == self@.setting(),
    {
        match self {
            Entry::Remote { setting, .. } => setting,
            Entry::Local { setting, .. } => setting,
        }
    }
}

/// Whether an official release is served from the legacy hosting location:
/// releases at or below 9.0.0, excluding exactly 8.0.1.
pub open spec fn uses_legacy_base(major: u64, minor: u64, patch: u64) -> bool {
    version_le(major as int, minor as int, patch as int, 9, 0, 0) && !(major == 8 && minor == 0
        && patch == 1)
}

/// The base download location of an official release.
pub open spec fn official_base_url(major: u64, minor: u64, patch: u64) -> Seq<char> {
    if uses_legacy_base(major, minor, patch) {
        "http://releases.llvm.org/"@ + version_chars(major as nat, minor as nat, patch as nat)
    } else {
        "https://github.com/llvm/llvm-project/releases/download/llvmorg-"@ + version_chars(
            major as nat,
            minor as nat,
            patch as nat,
        )
    }
}

/// The archive URL of one source component of an official release.
pub open spec fn official_archive_url(major: u64, minor: u64, patch: u64, source: Seq<
    char,
>) -> Seq<char> {
    official_base_url(major, minor, patch) + "/"@ + source + "-"@ + version_chars(
        major as nat,
        minor as nat,
        patch as nat,
    ) + ".src.tar.xz"@
}

/// The source name of the front-end compiler: the legacy alias at or below
/// 9.0.0, the modern name strictly above.
pub open spec fn official_clang_source(major: u64, minor: u64, patch: u64) -> Seq<char> {
    if version_le(major as int, minor as int, patch as int, 9, 0, 0) {
        "cfe"@
    } else {
        "clang"@
    }
}

/// Where runtime-component tools are placed: under `runtimes` at or above
/// 11.0.0, under `projects` below.
pub open spec fn official_runtime_dir(major: u64, minor: u64, patch: u64) -> Seq<char> {
    if version_le(11, 0, 0, major as int, minor as int, patch as int) {
        "runtimes"@
    } else {
        "projects"@
    }
}

/// One tool of an official release: fetched from the release's archive of
/// `source`, placed at an explicit relative path.
pub open spec fn official_tool(
    major: u64,
    minor: u64,
    patch: u64,
    name: Seq<char>,
    source: Seq<char>,
    rel: Seq<char>,
) -> ToolView {
    ToolView {
        name,
        url: official_archive_url(major, minor, patch, source),
        branch: None,
        relative_path: Some(rel),
    }
}

/// The tool list of an official release, in order.
pub open spec fn official_tools(major: u64, minor: u64, patch: u64) -> Seq<ToolView> {
    let rt = official_runtime_dir(major, minor, patch);
    seq![
        official_tool(major, minor, patch, "clang"@,
            official_clang_source(major, minor, patch), "tools/clang"@),
        official_tool(major, minor, patch, "lld"@, "lld"@, "tools/lld"@),
        official_tool(major, minor, patch, "lldb"@, "lldb"@, "tools/lldb"@),
        official_tool(major, minor, patch, "clang-tools-extra"@, "clang-tools-extra"@,
            "tools/clang/tools/extra"@),
        official_tool(major, minor, patch, "polly"@, "polly"@, "tools/polly"@),
        official_tool(major, minor, patch, "compiler-rt"@, "compiler-rt"@, rt + "/compiler-rt"@),
        official_tool(major, minor, patch, "libcxx"@, "libcxx"@, rt + "/libcxx"@),
        official_tool(major, minor, patch, "libcxxabi"@, "libcxxabi"@, rt + "/libcxxabi"@),
        official_tool(major, minor, patch, "libunwind"@, "libunwind"@, rt + "/libunwind"@),
        official_tool(major, minor, patch, "openmp"@, "openmp"@, "projects/openmp"@),
    ]
}

/// The full shape of an official release entry: named by its version, remote,
/// with the default setting plus the release URL and tools.
pub open spec fn official_entry_view(major: u64, minor: u64, patch: u64) -> EntryView {
    let url = official_archive_url(major, minor, patch, "llvm"@);
    let tools = official_tools(major, minor, patch);
    EntryView::Remote {
        name: version_chars(major as nat, minor as nat, patch as nat),
        version: Some(Version { major, minor, patch }),
        url: url,
        tools: tools,
        setting: SettingView {
            url: Some(url),
            path: None,
            tools: tools,
            target: seq![],
            generator: CMakeGenerator::Platform,
            build_type: BuildType::Release,
            option: seq![],
        },
    }
}

/// The archive URL of one source component, given the rendered base and
/// version.
fn archive_url(base: &str, source: &str, vtext: &str) -> (r: String)
    ensures
        r@ == base@ + "/"@ + source@ + "-"@ + vtext@ + ".src.tar.xz"@,
{
    let mut s = base.to_owned();
    s.append("/");
    s.append(source);
    s.append("-");
    s.append(vtext);
    s.append(".src.tar.xz");
    s
}

/// The version triples of the known official releases, newest first.
pub open spec fn official_release_triples() -> Seq<(u64, u64, u64)> {
    seq![
        (21u64, 1u64, 1u64), (21u64, 1u64, 0u64), (20u64, 1u64, 0u64), (19u64, 0u64, 0u64),
        (18u64, 1u64, 8u64), (18u64, 1u64, 0u64), (17u64, 0u64, 6u64), (17u64, 0u64, 0u64),
        (16u64, 0u64, 6u64), (16u64, 0u64, 0u64), (15u64, 0u64, 7u64), (15u64, 0u64, 0u64),
        (14u64, 0u64, 6u64), (14u64, 0u64, 0u64), (13u64, 0u64, 1u64), (13u64, 0u64, 0u64),
        (12u64, 0u64, 1u64), (12u64, 0u64, 0u64), (11u64, 1u64, 0u64), (11u64, 0u64, 0u64),
        (10u64, 0u64, 1u64), (10u64, 0u64, 0u64), (9u64, 0u64, 1u64), (8u64, 0u64, 1u64),
        (9u64, 0u64, 0u64), (8u64, 0u64, 0u64), (7u64, 1u64, 0u64), (7u64, 0u64, 1u64),
        (7u64, 0u64, 0u64), (6u64, 0u64, 1u64), (6u64, 0u64, 0u64), (5u64, 0u64, 2u64),
        (5u64, 0u64, 1u64), (4u64, 0u64, 1u64), (4u64, 0u64, 0u64), (3u64, 9u64, 1u64),
        (3u64, 9u64, 0u64),
    ]
}

impl Entry {
    /// The entry for one official release: its archives, its tools and their
    /// release-dependent placement, and the default build setting.
    pub fn official(major: u64, minor: u64, patch: u64) -> (r: Entry)
        ensures
            r@ == official_entry_view(major, minor, patch),
    {
        let version = Version::new(major, minor, patch);
        let vtext = version.to_text();
        let legacy = (major < 9 || (major == 9 && minor == 0 && patch == 0)) && !(major == 8
            && minor == 0 && patch == 1);
        let base_url = if legacy {
            concat2("http://releases.llvm.org/", vtext.as_str())
        } else {
            concat2(
                "https://github.com/llvm/llvm-project/releases/download/llvmorg-",
                vtext.as_str(),
            )
        };
        let mut setting = EntrySetting::default();
        proof {
            assert(setting@.tools.len() == 0);
            assert(setting@.tools == tool_views(setting.tools@));
            assert(setting.tools@.len() == 0);
        }
        let url = archive_url(base_url.as_str(), "llvm", vtext.as_str());
        setting.url = Some(url.clone());

        let clang_source = if major < 9 || (major == 9 && minor == 0 && patch == 0) {
            "cfe"
        } else {
            "clang"
        };
        let mut clang = Tool::new(
            "clang",
            archive_url(base_url.as_str(), clang_source, vtext.as_str()).as_str(),
        );
        clang.relative_path = Some("tools/clang".to_owned());
        setting.tools.push(clang);

        let mut lld = Tool::new(
            "lld",
            archive_url(base_url.as_str(), "lld", vtext.as_str()).as_str(),
        );
        lld.relative_path = Some("tools/lld".to_owned());
        setting.tools.push(lld);

        let mut lldb = Tool::new(
            "lldb",
            archive_url(base_url.as_str(), "lldb", vtext.as_str()).as_str(),
        );
        lldb.relative_path = Some("tools/lldb".to_owned());
        setting.tools.push(lldb);

        let mut clang_tools_extra = Tool::new(
            "clang-tools-extra",
            archive_url(base_url.as_str(), "clang-tools-extra", vtext.as_str()).as_str(),
        );
        clang_tools_extra.relative_path = Some("tools/clang/tools/extra".to_owned());
        setting.tools.push(clang_tools_extra);

        let mut polly = Tool::new(
            "polly",
            archive_url(base_url.as_str(), "polly", vtext.as_str()).as_str(),
        );
        polly.relative_path = Some("tools/polly".to_owned());
        setting.tools.push(polly);

        let runtime_dir = if major >= 11 {
            "runtimes"
        } else {
            "projects"
        };

        let mut compiler_rt = Tool::new(
            "compiler-rt",
            archive_url(base_url.as_str(), "compiler-rt", vtext.as_str()).as_str(),
        );
        compiler_rt.relative_path = Some(concat2(runtime_dir, "/compiler-rt"));
        setting.tools.push(compiler_rt);

        let mut libcxx = Tool::new(
            "libcxx",
            archive_url(base_url.as_str(), "libcxx", vtext.as_str()).as_str(),
        );
        libcxx.relative_path = Some(concat2(runtime_dir, "/libcxx"));
        setting.tools.push(libcxx);

        let mut libcxxabi = Tool::new(
            "libcxxabi",
            archive_url(base_url.as_str(), "libcxxabi", vtext.as_str()).as_str(),
        );
        libcxxabi.relative_path = Some(concat2(runtime_dir, "/libcxxabi"));
        setting.tools.push(libcxxabi);

        let mut libunwind = Tool::new(
            "libunwind",
            archive_url(base_url.as_str(), "libunwind", vtext.as_str()).as_str(),
        );
        libunwind.relative_path = Some(concat2(runtime_dir, "/libunwind"));
        setting.tools.push(libunwind);

        let mut openmp = Tool::new(
            "openmp",
            archive_url(base_url.as_str(), "openmp", vtext.as_str()).as_str(),
        );
        openmp.relative_path = Some("projects/openmp".to_owned());
        setting.tools.push(openmp);

        let name = version.to_text();
        let tools = clone_tools(&setting.tools);
        let e = Entry::Remote { name, version: Some(version), url, tools, setting };
        proof {
            let want = official_tools(major, minor, patch);
            let have = e@.setting().tools;
            assert(legacy == uses_legacy_base(major, minor, patch));
            assert(base_url@ == official_base_url(major, minor, patch));
            assert(have.len() == want.len());
            assert(have[0] =~= want[0]);
            assert(have[1] =~= want[1]);
            assert(have[2] =~= want[2]);
            assert(have[3] =~= want[3]);
            assert(have[4] =~= want[4]);
            assert(have[5] =~= want[5]);
            assert(have[6] =~= want[6]);
            assert(have[7] =~= want[7]);
            assert(have[8] =~= want[8]);
            assert(have[9] =~= want[9]);
            assert(have =~= want);
            assert(e@ =~~= official_entry_view(major, minor, patch));
        }
        e
    }
}

/// Every official release entry, newest first.
pub fn official_releases() -> (r: Vec<Entry>)
    ensures
        r@.len() == official_release_triples().len(),
        forall|i: int|
            0 <= i < r@.len() ==> r@[i]@ == official_entry_view(
                official_release_triples()[i].0,
                official_release_triples()[i].1,
                official_release_triples()[i].2,
            ),
{
    let mut ts: Vec<(u64, u64, u64)> = Vec::new();
    ts.push((21, 1, 1));
    ts.push((21, 1, 0));
    ts.push((20, 1, 0));
    ts.push((19, 0, 0));
    ts.push((18, 1, 8));
    ts.push((18, 1, 0));
    ts.push((17, 0, 6));
    ts.push((17, 0, 0));
    ts.push((16, 0, 6));
    ts.push((16, 0, 0));
    ts.push((15, 0, 7));
    ts.push((15, 0, 0));
    ts.push((14, 0, 6));
    ts.push((14, 0, 0));
    ts.push((13, 0, 1));
    ts.push((13, 0, 0));
    ts.push((12, 0, 1));
    ts.push((12, 0, 0));
    ts.push((11, 1, 0));
    ts.push((11, 0, 0));
    ts.push((10, 0, 1));
    ts.push((10, 0, 0));
    ts.push((9, 0, 1));
    ts.push((8, 0, 1));
    ts.push((9, 0, 0));
    ts.push((8, 0, 0));
    ts.push((7, 1, 0));
    ts.push((7, 0, 1));
    ts.push((7, 0, 0));
    ts.push((6, 0, 1));
    ts.push((6, 0, 0));
    ts.push((5, 0, 2));
    ts.push((5, 0, 1));
    ts.push((4, 0, 1));
    ts.push((4, 0, 0));
    ts.push((3, 9, 1));
    ts.push((3, 9, 0));
    proof {
        assert(ts@ =~= official_release_triples());
    }
    let mut r: Vec<Entry> = Vec::new();
    let mut i: usize = 0;
    while i < ts.len()
        invariant
            ts@ == official_release_triples(),
            0 <= i <= ts@.len(),
            r@.len() == i,
            forall|j: int|
                0 <= j < i ==> r@[j]@ == official_entry_view(
                    ts@[j].0,
                    ts@[j].1,
                    ts@[j].2,
                ),
        decreases ts@.len() - i,
    {
        let t = ts[i];
        r.push(Entry::official(t.0, t.1, t.2));
        i += 1;
    }
    r
}

/// An entry with its setting replaced.
pub open spec fn with_setting(e: EntryView, s: SettingView) -> EntryView {
    match e {
        EntryView::Remote { name, version, url, tools, .. } => EntryView::Remote {
            name,
            version,
            url,
            tools,
            setting: s,
        },
        EntryView::Local { name, version, path, .. } => EntryView::Local {
            name,
            version,
            path,
            setting: s,
        },
    }
}

/// The source directory of an entry: a remote entry's sources live under the
/// cache root by name, a local entry's sources are its own path.
pub open spec fn src_dir_chars(e: EntryView, cache: Seq<char>) -> Seq<char> {
    match e {
        EntryView::Remote { name, .. } => joined_path(cache, name),
        EntryView::Local { path, .. } => path,
    }
}

/// The build directory of an entry: `build` below its source directory.
pub open spec fn build_dir_chars(e: EntryView, cache: Seq<char>) -> Seq<char> {
    joined_path(src_dir_chars(e, cache), "build"@)
}

/// The install prefix of an entry: its name below the data root.
pub open spec fn prefix_chars(e: EntryView, data: Seq<char>) -> Seq<char> {
    joined_path(data, e.name())
}

/// The builder definitions carrying the user's extra options, in order.
pub open spec fn option_defs(opts: Seq<(Seq<char>, Seq<char>)>) -> Seq<Seq<char>> {
    Seq::new(opts.len(), |i: int| "-D"@ + opts[i].0 + "="@ + opts[i].1)
}

/// The configuration-time argument list before the user's extra options:
/// generator flags, the source directory, the install-prefix and build-type
/// definitions, the two tool-dependent flags when their tool is discoverable,
/// and the target-architecture definition when targets are named.
pub open spec fn configure_base_texts(
    e: EntryView,
    cache: Seq<char>,
    data: Seq<char>,
    ccache: bool,
    lld: bool,
) -> Seq<Seq<char>> {
    generator_option_texts(e.setting().generator) + seq![
        src_dir_chars(e, cache),
        "-DCMAKE_INSTALL_PREFIX="@ + prefix_chars(e, data),
        "-DCMAKE_BUILD_TYPE="@ + build_type_chars(e.setting().build_type),
    ] + (if ccache {
        seq!["-DLLVM_CCACHE_BUILD=ON"@]
    } else {
        seq![]
    }) + (if lld {
        seq!["-DLLVM_ENABLE_LLD=ON"@]
    } else {
        seq![]
    }) + (if e.setting().target.len() > 0 {
        seq!["-DLLVM_TARGETS_TO_BUILD="@ + sep_joined(e.setting().target, ";"@)]
    } else {
        seq![]
    })
}

/// The full configuration-time argument list.
pub open spec fn configure_args_texts(
    e: EntryView,
    cache: Seq<char>,
    data: Seq<char>,
    ccache: bool,
    lld: bool,
) -> Seq<Seq<char>> {
    configure_base_texts(e, cache, data, ccache, lld) + option_defs(e.setting().option)
}

/// The build-time argument list: build-and-install mode on the build
/// directory, then the generator's build options.
pub open spec fn build_args_texts(e: EntryView, cache: Seq<char>, nproc: nat) -> Seq<Seq<char>> {
    seq!["--build"@, build_dir_chars(e, cache), "--target"@, "install"@]
        + generator_build_option_texts(e.setting().generator, nproc, e.setting().build_type)
}

/// Relies on which's `which`: whether a program is discoverable on the search
/// path. The answer depends on the machine, so nothing is stated of it.
#[verifier::external_body]
fn tool_on_path(name: &str) -> bool {
    which::which(name).is_ok()
}

/// One source fetch: from a URL into a destination directory.
#[derive(Debug, PartialEq)]
pub struct Fetch {
    pub url: String,
    pub dest: String,
}

/// The mathematical shape of a `Fetch`.
#[verifier::ext_equal]
pub struct FetchView {
    pub url: Seq<char>,
    pub dest: Seq<char>,
}

impl View for Fetch {
    type V = FetchView;

    open spec fn view(&self) -> FetchView {
        FetchView { url: self.url@, dest: self.dest@ }
    }
}

/// The views of a sequence of fetches.
pub open spec fn fetch_views(fs: Seq<Fetch>) -> Seq<FetchView> {
    Seq::new(fs.len(), |i: int| fs[i]@)
}

/// Whether every tool of an entry has a relative path, explicit or implied.
pub open spec fn plan_defined(e: EntryView) -> bool {
    match e {
        EntryView::Local { .. } => true,
        EntryView::Remote { tools, .. } => forall|i: int|
            0 <= i < tools.len() ==> rel_path_spec(#[trigger] tools[i]) is Some,
    }
}

/// The fetch of one tool: from its URL into its place below the source tree.
pub open spec fn tool_fetch(t: ToolView, src: Seq<char>) -> FetchView {
    FetchView { url: t.url, dest: joined_path(src, rel_path_spec(t)->Some_0) }
}

/// The fetch plan of an entry: nothing for a local entry; for a remote entry
/// the primary source into the source directory, then each tool into its
/// relative path below it.
pub open spec fn fetch_plan_views(e: EntryView, cache: Seq<char>) -> Seq<FetchView> {
    match e {
        EntryView::Local { .. } => seq![],
        EntryView::Remote { url, tools, .. } => seq![
            FetchView { url, dest: src_dir_chars(e, cache) },
        ] + Seq::new(tools.len(), |i: int| tool_fetch(tools[i], src_dir_chars(e, cache))),
    }
}

impl Entry {
    /// Select the generator persisted for this entry. An unknown name leaves
    /// the entry unchanged.
    pub fn set_builder(&mut self, generator: &str) -> (r: Result<(), Error>)
        ensures
            generator_of(generator@) matches Some(g) ==> (r is Ok && final(self)@ == with_setting(
                old(self)@,
                SettingView { generator: g, ..old(self)@.setting() },
            )),
            generator_of(generator@) is None ==> (*final(self) == *old(self) && (r matches Err(e)
                && e matches Error::UnsupportedGenerator { generator: g } && g@ == generator@)),
    {
        let g = match CMakeGenerator::from_str(generator) {
            Ok(g) => g,
            Err(e) => {
                return Err(e);
            },
        };
        match self {
            Entry::Remote { setting, .. } => {
                setting.generator = g;
            },
            Entry::Local { setting, .. } => {
                setting.generator = g;
            },
        }
        Ok(())
    }

    /// Select the build type persisted for this entry.
    pub fn set_build_type(&mut self, build_type: BuildType) -> (r: Result<(), Error>)
        ensures
            r is Ok,
            final(self)@ == with_setting(
                old(self)@,
                SettingView { build_type, ..old(self)@.setting() },
            ),
    {
        match self {
            Entry::Remote { setting, .. } => {
                setting.build_type = build_type;
            },
            Entry::Local { setting, .. } => {
                setting.build_type = build_type;
            },
        }
        Ok(())
    }

    /// The directory holding this entry's sources.
    pub fn src_dir(&self, dirs: &Dirs) -> (r: String)
        ensures
            r@ == src_dir_chars(self@, dirs.cache@),
    {
        match self {
            Entry::Remote { name, .. } => path_join(dirs.cache.as_str(), name.as_str()),
            Entry::Local { path, .. } => path.clone(),
        }
    }

    /// The directory where this entry is configured and compiled. This is
    /// only the path; the caller creates the directory before invoking the
    /// builder in it.
    pub fn build_dir(&self, dirs: &Dirs) -> (r: String)
        ensures
            r@ == build_dir_chars(self@, dirs.cache@),
    {
        let src = self.src_dir(dirs);
        path_join(src.as_str(), "build")
    }

    /// The prefix this entry installs into.
    pub fn prefix(&self, dirs: &Dirs) -> (r: String)
        ensures
            r@ == prefix_chars(self@, dirs.data@),
    {
        path_join(dirs.data.as_str(), self.name())
    }

    /// The configuration-time argument list, given whether the build cache
    /// tool and the alternate linker are discoverable.
    pub fn configure_args(&self, dirs: &Dirs, ccache: bool, lld: bool) -> (r: Vec<String>)
        ensures
            texts(r@) == configure_args_texts(self@, dirs.cache@, dirs.data@, ccache, lld),
    {
        let setting = self.setting();
        let mut v = setting.generator.option();
        v.push(self.src_dir(dirs));
        let prefix = self.prefix(dirs);
        v.push(concat2("-DCMAKE_INSTALL_PREFIX=", prefix.as_str()));
        let bt = setting.build_type.name_text();
        v.push(concat2("-DCMAKE_BUILD_TYPE=", bt.as_str()));
        if ccache {
            v.push("-DLLVM_CCACHE_BUILD=ON".to_owned());
        }
        if lld {
            v.push("-DLLVM_ENABLE_LLD=ON".to_owned());
        }
        if setting.target.len() > 0 {
            let targets = join_semicolon(&setting.target);
            v.push(concat2("-DLLVM_TARGETS_TO_BUILD=", targets.as_str()));
        }
        proof {
            assert(texts(v@) =~= configure_base_texts(
                self@,
                dirs.cache@,
                dirs.data@,
                ccache,
                lld,
            ));
        }
        let ghost base = v@;
        let mut i: usize = 0;
        while i < setting.option.len()
            invariant
                0 <= i <= setting.option@.len(),
                setting@ == self@.setting(),
                texts(base) == configure_base_texts(self@, dirs.cache@, dirs.data@, ccache, lld),
                texts(v@) =~= texts(base) + option_defs(self@.setting().option).take(i as int),
            decreases setting.option@.len() - i,
        {
            let k = &setting.option[i].0;
            let val = &setting.option[i].1;
            let mut def = concat2("-D", k.as_str());
            def.append("=");
            def.append(val.as_str());
            proof {
                assert(option_defs(self@.setting().option)[i as int] == "-D"@ + k@ + "="@ + val@);
            }
            let ghost pre = v@;
            let ghost defv = def@;
            let ghost defs = option_defs(self@.setting().option);
            v.push(def);
            proof {
                assert(texts(v@) =~= texts(pre).push(defv));
                assert(defs.take(i as int).push(defs[i as int]) =~= defs.take(i as int + 1));
                assert((texts(base) + defs.take(i as int)).push(defs[i as int]) =~= texts(base)
                    + defs.take(i as int).push(defs[i as int]));
                assert(texts(v@) =~= texts(base) + defs.take(i as int + 1));
            }
            i += 1;
        }
        proof {
            assert(option_defs(self@.setting().option).take(setting.option@.len() as int)
                =~= option_defs(self@.setting().option));
            assert(texts(v@) =~= configure_args_texts(self@, dirs.cache@, dirs.data@, ccache, lld));
        }
        v
    }

    /// The configuration-time argument list, with the two tool-dependent
    /// flags decided by what is discoverable on this machine.
    pub fn configure_options(&self, dirs: &Dirs) -> (r: Vec<String>)
        ensures
            exists|ccache: bool, lld: bool|
                texts(r@) == configure_args_texts(self@, dirs.cache@, dirs.data@, ccache, lld),
    {
        let ccache = tool_on_path("ccache");
        let lld = tool_on_path("lld");
        self.configure_args(dirs, ccache, lld)
    }

    /// The build-time argument list for the external builder.
    pub fn build_args(&self, dirs: &Dirs, nproc: usize) -> (r: Vec<String>)
        ensures
            texts(r@) == build_args_texts(self@, dirs.cache@, nproc as nat),
    {
        let mut v: Vec<String> = Vec::new();
        v.push("--build".to_owned());
        v.push(self.build_dir(dirs));
        v.push("--target".to_owned());
        v.push("install".to_owned());
        let setting = self.setting();
        let mut opts = setting.generator.build_option(nproc, setting.build_type);
        v.append(&mut opts);
        proof {
            assert(texts(v@) =~= build_args_texts(self@, dirs.cache@, nproc as nat));
        }
        v
    }

    /// The ordered list of fetches that obtains this entry's sources: used
    /// both to check sources out and to update them. A tool whose relative
    /// path is unknown is a configuration error.
    pub fn fetch_plan(&self, dirs: &Dirs) -> (r: Result<Vec<Fetch>, Error>)
        ensures
            plan_defined(self@) ==> (r matches Ok(p) && fetch_views(p@) == fetch_plan_views(
                self@,
                dirs.cache@,
            )),
            !plan_defined(self@) ==> (r matches Err(e) && e matches Error::UnknownToolPath {
                name,
            } && exists|k: int|
                0 <= k < self@->Remote_tools.len() && rel_path_spec(
                    #[trigger] self@->Remote_tools[k],
                ) is None && (forall|j: int|
                    0 <= j < k ==> rel_path_spec(#[trigger] self@->Remote_tools[j]) is Some)
                    && name@ == self@->Remote_tools[k].name),
    {
        match self {
            Entry::Local { .. } => Ok(Vec::new()),
            Entry::Remote { url, tools, .. } => {
                let src = self.src_dir(dirs);
                let mut v: Vec<Fetch> = Vec::new();
                v.push(Fetch { url: url.clone(), dest: src.clone() });
                let ghost ts = self@->Remote_tools;
                let mut i: usize = 0;
                while i < tools.len()
                    invariant
                        0 <= i <= tools@.len(),
                        ts == tool_views(tools@),
                        src@ == src_dir_chars(self@, dirs.cache@),
                        self@ matches EntryView::Remote { .. },
                        ts == self@->Remote_tools,
                        forall|j: int| 0 <= j < i ==> rel_path_spec(#[trigger] ts[j]) is Some,
                        fetch_views(v@) =~= seq![
                            FetchView {
                                url: self@->Remote_url,
                                dest: src_dir_chars(self@, dirs.cache@),
                            },
                        ] + Seq::new(i as nat, |j: int|
                            tool_fetch(ts[j], src_dir_chars(self@, dirs.cache@))),
                    decreases tools@.len() - i,
                {
                    proof {
                        assert(ts[i as int] == tools@[i as int]@);
                    }
                    let rel = match tools[i].rel_path() {
                        Ok(rel) => rel,
                        Err(e) => {
                            proof {
                                assert(rel_path_spec(ts[i as int]) is None);
                                assert(!plan_defined(self@));
                            }
                            return Err(e);
                        },
                    };
                    let dest = path_join(src.as_str(), rel.as_str());
                    let f = Fetch { url: tools[i].url.clone(), dest };
                    let ghost fv = f@;
                    let ghost pre = v@;
                    let ghost here = src_dir_chars(self@, dirs.cache@);
                    let ghost head = seq![FetchView { url: self@->Remote_url, dest: here }];
                    v.push(f);
                    proof {
                        assert(fetch_views(v@) =~= fetch_views(pre).push(fv));
                        assert(fv == tool_fetch(ts[i as int], here));
                        assert(Seq::new(i as nat, |j: int| tool_fetch(ts[j], here)).push(
                            tool_fetch(ts[i as int], here),
                        ) =~= Seq::new((i + 1) as nat, |j: int| tool_fetch(ts[j], here)));
                        assert((head + Seq::new(i as nat, |j: int| tool_fetch(ts[j], here))).push(
                            tool_fetch(ts[i as int], here),
                        ) =~= head + Seq::new(i as nat, |j: int| tool_fetch(ts[j], here)).push(
                            tool_fetch(ts[i as int], here),
                        ));
                        assert(fetch_views(v@) =~= head + Seq::new((i + 1) as nat, |j: int|
                            tool_fetch(ts[j], here)));
                    }
                    i += 1;
                }
                proof {
                    assert(fetch_views(v@) =~= fetch_plan_views(self@, dirs.cache@));
                }
                Ok(v)
            },
        }
    }
}

/// An entry whose name equals the identifier verbatim.
pub open spec fn name_sat(e: Entry, id: Seq<char>) -> bool {
    e@.name() == id
}

/// An entry whose version satisfies the identifier read as a version
/// requirement.
pub open spec fn req_sat(e: Entry, id: Seq<char>) -> bool {
    e@.version() matches Some(v) && req_eval(id, v.major, v.minor, v.patch) == Some(true)
}

/// The first entry of the list named exactly by the identifier is `e`.
pub open spec fn first_name_hit(entries: Seq<Entry>, id: Seq<char>, e: Entry) -> bool {
    exists|k: int|
        0 <= k < entries.len() && e == entries[k] && name_sat(#[trigger] entries[k], id) && (
        forall|j: int| 0 <= j < k ==> !name_sat(#[trigger] entries[j], id))
}

/// The first entry of the list whose version satisfies the identifier is `e`.
pub open spec fn first_req_hit(entries: Seq<Entry>, id: Seq<char>, e: Entry) -> bool {
    exists|k: int|
        0 <= k < entries.len() && e == entries[k] && req_sat(#[trigger] entries[k], id) && (
        forall|j: int| 0 <= j < k ==> !req_sat(#[trigger] entries[j], id))
}

/// A setting that no entry can be built from: both of url and path, or
/// neither.
pub open spec fn statically_invalid(s: SettingView) -> bool {
    (s.url is Some && s.path is Some) || (s.url is None && s.path is None)
}

/// The shape of the entry a successful parse of one named setting yields: its
/// version read from its name, local or remote by which of path and url is
/// set.
pub open spec fn parsed_entry_ok(e: EntryView, name: Seq<char>, s: SettingView) -> bool {
    if s.path is Some {
        e matches EntryView::Local { name: n, version: v, path: _, setting: st } && n == name && v
            == name_version(name) && st == s
    } else {
        e == (EntryView::Remote {
            name,
            version: name_version(name),
            url: s.url->Some_0,
            tools: s.tools,
            setting: s,
        })
    }
}

/// Normalize a whole name-keyed collection of settings into entries, in the
/// given order. The load fails as a whole on the first setting that is
/// invalid or whose path cannot be expanded.
pub fn load_entry_map(pairs: &Vec<(String, EntrySetting)>) -> (r: Result<Vec<Entry>, Error>)
    ensures
        r matches Ok(es) ==> (es@.len() == pairs@.len() && (forall|i: int|
            0 <= i < es@.len() ==> parsed_entry_ok(
                #[trigger] es@[i]@,
                pairs@[i].0@,
                pairs@[i].1@,
            )) && (forall|i: int| 0 <= i < pairs@.len() ==> !statically_invalid(
            #[trigger] pairs@[i].1@,
        ))),
        r is Err ==> exists|i: int|
            0 <= i < pairs@.len() && (statically_invalid(#[trigger] pairs@[i].1@)
                || pairs@[i].1@.path is Some),
        (forall|i: int|
            0 <= i < pairs@.len() ==> (!statically_invalid(#[trigger] pairs@[i].1@)
                && pairs@[i].1@.path is None)) ==> r is Ok,
{
    let mut es: Vec<Entry> = Vec::new();
    let mut i: usize = 0;
    while i < pairs.len()
        invariant
            0 <= i <= pairs@.len(),
            es@.len() == i,
            forall|j: int|
                0 <= j < i ==> parsed_entry_ok(#[trigger] es@[j]@, pairs@[j].0@, pairs@[j].1@),
            forall|j: int| 0 <= j < i ==> !statically_invalid(#[trigger] pairs@[j].1@),
        decreases pairs@.len() - i,
    {
        let name = &pairs[i].0;
        let setting = pairs[i].1.clone();
        let version = parse_semver_name(name.as_str());
        match Entry::parse_setting(name.as_str(), version, setting) {
            Ok(e) => {
                es.push(e);
            },
            Err(e) => {
                return Err(e);
            },
        }
        i += 1;
    }
    Ok(es)
}

/// All entries a caller can resolve against: the user-defined entries first,
/// then every official release, in order.
pub fn load_entries(user: Vec<Entry>) -> (r: Vec<Entry>)
    ensures
        r@.len() == user@.len() + official_release_triples().len(),
        forall|i: int| 0 <= i < user@.len() ==> r@[i] == user@[i],
        forall|i: int|
            user@.len() <= i < r@.len() ==> r@[i]@ == official_entry_view(
                official_release_triples()[i - user@.len()].0,
                official_release_triples()[i - user@.len()].1,
                official_release_triples()[i - user@.len()].2,
            ),
{
    let mut r = user;
    let mut official = official_releases();
    r.append(&mut official);
    r
}

/// Resolve an identifier against an ordered entry list: the first entry
/// whose name equals the identifier verbatim wins; when no name does, the
/// first entry whose version satisfies the identifier read as a version
/// requirement wins. No match at all is an invalid-entry error.
#[verifier::loop_isolation(false)]
pub fn load_entry(entries: Vec<Entry>, name: &str) -> (r: Result<Entry, Error>)
    ensures
        (exists|k: int| 0 <= k < entries@.len() && name_sat(#[trigger] entries@[k], name@))
            ==> (r matches Ok(e) && first_name_hit(entries@, name@, e)),
        ((forall|k: int| 0 <= k < entries@.len() ==> !name_sat(#[trigger] entries@[k], name@))
            && (exists|k: int|
            0 <= k < entries@.len() && req_sat(#[trigger] entries@[k], name@))) ==> (r matches
            Ok(e) && first_req_hit(entries@, name@, e)),
        r matches Err(e) ==> ((forall|j: int|
            0 <= j < entries@.len() ==> !name_sat(#[trigger] entries@[j], name@) && !req_sat(
                entries@[j],
                name@,
            )) && (e matches Error::InvalidEntry { name: n, message: m } && n@ == name@ && m@
            == "Entry not found"@)),
{
    let ghost input = entries@;
    let mut es = entries;
    let mut i: usize = 0;
    while i < es.len()
        invariant
            0 <= i <= es@.len(),
            es@ == input,
            forall|j: int| 0 <= j < i ==> !name_sat(#[trigger] input[j], name@),
        decreases es@.len() - i,
    {
        if str_eq(es[i].name(), name) {
            let e = es.remove(i);
            proof {
                assert(first_name_hit(input, name@, e)) by {
                    assert(0 <= i < input.len() && e == input[i as int] && name_sat(
                        input[i as int],
                        name@,
                    ) && (forall|j: int| 0 <= j < i ==> !name_sat(#[trigger] input[j], name@)));
                }
            }
            return Ok(e);
        }
        i += 1;
    }
    let mut i: usize = 0;
    while i < es.len()
        invariant
            0 <= i <= es@.len(),
            es@ == input,
            forall|j: int| 0 <= j < i ==> !req_sat(#[trigger] input[j], name@),
        decreases es@.len() - i,
    {
        let hit = match es[i].version() {
            Some(v) => {
                let v = *v;
                match crate::version::req_matches(name, &v) {
                    Some(true) => true,
                    _ => false,
                }
            },
            None => false,
        };
        if hit {
            let e = es.remove(i);
            proof {
                assert(first_req_hit(input, name@, e)) by {
                    assert(0 <= i < input.len() && e == input[i as int] && req_sat(
                        input[i as int],
                        name@,
                    ) && (forall|j: int| 0 <= j < i ==> !req_sat(#[trigger] input[j], name@)));
                }
            }
            return Ok(e);
        }
        i += 1;
    }
    Err(Error::InvalidEntry { message: "Entry not found".to_owned(), name: name.to_owned() })
}

} // verus!
