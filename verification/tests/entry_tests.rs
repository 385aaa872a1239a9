use llvmmgmt::entry::{load_entries, load_entry, load_entry_map, Entry, EntrySetting, Tool};
use llvmmgmt::error::Error;
use llvmmgmt::config::Dirs;
use llvmmgmt::generator::{BuildType, CMakeGenerator};
use llvmmgmt::version::Version;

fn dirs() -> Dirs {
    Dirs {
        config: "/home/u/.config/llvmmgmt".to_string(),
        data: "/home/u/.local/share/llvmmgmt".to_string(),
        cache: "/home/u/.cache/llvmmgmt".to_string(),
    }
}

#[test]
fn parse_url() {
    let setting = EntrySetting {
        url: Some("http://llvm.org/svn/llvm-project/llvm/trunk".into()),
        ..Default::default()
    };
    let _entry = Entry::parse_setting("url", None, setting).unwrap();
}

#[test]
fn parse_path() {
    let setting = EntrySetting { path: Some("~/.config/llvmmgmt".into()), ..Default::default() };
    let _entry = Entry::parse_setting("path", None, setting).unwrap();
}

#[should_panic]
#[test]
fn parse_no_entry() {
    let setting = EntrySetting::default();
    let _entry = Entry::parse_setting("no_entry", None, setting).unwrap();
}

#[should_panic]
#[test]
fn parse_duplicated() {
    let setting = EntrySetting {
        url: Some("http://llvm.org/svn/llvm-project/llvm/trunk".into()),
        path: Some("~/.config/llvmmgmt".into()),
        ..Default::default()
    };
    let _entry = Entry::parse_setting("duplicated", None, setting).unwrap();
}

#[test]
fn parse_with_version() {
    let path = "~/.config/llvmmgmt";
    let version = Version::new(10, 0, 0);
    let setting = EntrySetting { path: Some(path.into()), ..Default::default() };
    let entry = Entry::parse_setting("path", Some(version.clone()), setting.clone()).unwrap();

    assert_eq!(entry.version(), Some(&version));
    assert_eq!(
        entry,
        Entry::Local {
            name: "path".into(),
            version: Some(version),
            path: shellexpand::full(path).unwrap().to_string(),
            setting,
        }
    )
}

#[test]
fn rel_path_defaults() {
    let clang = Tool::new("clang", "u");
    assert_eq!(clang.rel_path().unwrap(), "tools/clang");
    let rt = Tool::new("compiler-rt", "u");
    assert_eq!(rt.rel_path().unwrap(), "runtimes/compiler-rt");
    let extra = Tool::new("clang-tools-extra", "u");
    assert_eq!(extra.rel_path().unwrap(), "tools/clang/tools/extra");
    let omp = Tool::new("openmp", "u");
    assert_eq!(omp.rel_path().unwrap(), "projects/openmp");
    let stranger = Tool::new("stranger", "u");
    assert_eq!(
        stranger.rel_path(),
        Err(Error::UnknownToolPath { name: "stranger".to_string() })
    );
}

#[test]
fn rel_path_explicit_wins() {
    let mut t = Tool::new("clang", "u");
    t.relative_path = Some("elsewhere".into());
    assert_eq!(t.rel_path().unwrap(), "elsewhere");
}

fn official_url(e: &Entry) -> String {
    match e {
        Entry::Remote { url, .. } => url.clone(),
        Entry::Local { .. } => panic!("official entries are remote"),
    }
}

fn official_tool<'a>(e: &'a Entry, name: &str) -> &'a Tool {
    match e {
        Entry::Remote { tools, .. } => tools.iter().find(|t| t.name == name).unwrap(),
        Entry::Local { .. } => panic!("official entries are remote"),
    }
}

#[test]
fn official_base_locations() {
    // At or below 9.0.0 (but not exactly 8.0.1) the legacy host serves the
    // archives; everything else comes from the current host.
    let e = Entry::official(9, 0, 0);
    assert_eq!(official_url(&e), "http://releases.llvm.org/9.0.0/llvm-9.0.0.src.tar.xz");
    let e = Entry::official(8, 0, 1);
    assert_eq!(
        official_url(&e),
        "https://github.com/llvm/llvm-project/releases/download/llvmorg-8.0.1/llvm-8.0.1.src.tar.xz"
    );
    let e = Entry::official(9, 0, 1);
    assert_eq!(
        official_url(&e),
        "https://github.com/llvm/llvm-project/releases/download/llvmorg-9.0.1/llvm-9.0.1.src.tar.xz"
    );
    let e = Entry::official(3, 9, 0);
    assert_eq!(official_url(&e), "http://releases.llvm.org/3.9.0/llvm-3.9.0.src.tar.xz");
}

#[test]
fn official_clang_source_names() {
    let e = Entry::official(9, 0, 0);
    assert_eq!(
        official_tool(&e, "clang").url,
        "http://releases.llvm.org/9.0.0/cfe-9.0.0.src.tar.xz"
    );
    let e = Entry::official(10, 0, 0);
    assert_eq!(
        official_tool(&e, "clang").url,
        "https://github.com/llvm/llvm-project/releases/download/llvmorg-10.0.0/clang-10.0.0.src.tar.xz"
    );
}

#[test]
fn official_runtime_placement() {
    let e = Entry::official(11, 0, 0);
    assert_eq!(
        official_tool(&e, "compiler-rt").relative_path.as_deref(),
        Some("runtimes/compiler-rt")
    );
    let e = Entry::official(10, 0, 0);
    assert_eq!(
        official_tool(&e, "compiler-rt").relative_path.as_deref(),
        Some("projects/compiler-rt")
    );
    // Parallel-execution support always lives under projects.
    let e = Entry::official(21, 1, 1);
    assert_eq!(official_tool(&e, "openmp").relative_path.as_deref(), Some("projects/openmp"));
}

#[test]
fn load_entries_appends_official() {
    let all = load_entries(Vec::new());
    assert_eq!(all.len(), 37);
    assert_eq!(all[0].name(), "21.1.1");
    let setting = EntrySetting { url: Some("http://example.invalid/llvm".into()), ..Default::default() };
    let mine = Entry::parse_setting("mine", None, setting).unwrap();
    let all = load_entries(vec![mine]);
    assert_eq!(all.len(), 38);
    assert_eq!(all[0].name(), "mine");
    assert_eq!(all[1].name(), "21.1.1");
}

#[test]
fn load_entry_exact_name() {
    let e = load_entry(load_entries(Vec::new()), "10.0.0").unwrap();
    assert_eq!(e.name(), "10.0.0");
    assert_eq!(e.version(), Some(&Version::new(10, 0, 0)));
}

#[test]
fn load_entry_by_requirement() {
    // No entry is named "^10"; the first entry in catalog order whose version
    // satisfies the requirement wins, and 10.0.1 stands before 10.0.0.
    let e = load_entry(load_entries(Vec::new()), "^10").unwrap();
    assert_eq!(e.name(), "10.0.1");
    let e = load_entry(load_entries(Vec::new()), "=10.0.0").unwrap();
    assert_eq!(e.name(), "10.0.0");
}

#[test]
fn load_entry_exact_name_beats_requirement() {
    // "10.0.0" also reads as a requirement that 10.0.1 satisfies, and 10.0.1
    // stands earlier in the catalog; the verbatim name still wins.
    let e = load_entry(load_entries(Vec::new()), "10.0.0").unwrap();
    assert_eq!(e.name(), "10.0.0");
}

#[test]
fn load_entry_not_found() {
    let r = load_entry(load_entries(Vec::new()), "no-such-entry");
    assert_eq!(
        r,
        Err(Error::InvalidEntry {
            message: "Entry not found".to_string(),
            name: "no-such-entry".to_string(),
        })
    );
}

#[test]
fn load_entry_map_reads_versions_from_names() {
    let setting = EntrySetting { url: Some("http://example.invalid/llvm".into()), ..Default::default() };
    let pairs = vec![("3.3.3".to_string(), setting.clone()), ("devel".to_string(), setting)];
    let es = load_entry_map(&pairs).unwrap();
    assert_eq!(es.len(), 2);
    assert_eq!(es[0].version(), Some(&Version::new(3, 3, 3)));
    assert_eq!(es[1].version(), None);
}

#[test]
fn load_entry_map_rejects_invalid() {
    let pairs = vec![("empty".to_string(), EntrySetting::default())];
    assert!(load_entry_map(&pairs).is_err());
}

#[test]
fn set_builder_and_build_type() {
    let setting = EntrySetting { url: Some("u".into()), ..Default::default() };
    let mut e = Entry::parse_setting("x", None, setting).unwrap();
    assert_eq!(e.setting().generator, CMakeGenerator::Platform);
    e.set_builder("ninja").unwrap();
    assert_eq!(e.setting().generator, CMakeGenerator::Ninja);
    let r = e.set_builder("mysuperbuilder");
    assert_eq!(
        r,
        Err(Error::UnsupportedGenerator { generator: "mysuperbuilder".to_string() })
    );
    assert_eq!(e.setting().generator, CMakeGenerator::Ninja);
    e.set_build_type(BuildType::Debug).unwrap();
    assert_eq!(e.setting().build_type, BuildType::Debug);
}

#[test]
fn entry_directories() {
    let d = dirs();
    let setting = EntrySetting { url: Some("u".into()), ..Default::default() };
    let e = Entry::parse_setting("mine", None, setting).unwrap();
    assert_eq!(e.src_dir(&d), "/home/u/.cache/llvmmgmt/mine");
    assert_eq!(e.build_dir(&d), "/home/u/.cache/llvmmgmt/mine/build");
    assert_eq!(e.prefix(&d), "/home/u/.local/share/llvmmgmt/mine");
    assert_eq!(d.entry_toml_path(), "/home/u/.config/llvmmgmt/entry.toml");
}

#[test]
fn configure_args_exact() {
    let d = dirs();
    let setting = EntrySetting {
        url: Some("u".into()),
        target: vec!["X86".to_string(), "ARM".to_string()],
        option: vec![("LLVM_ENABLE_ASSERTIONS".to_string(), "ON".to_string())],
        ..Default::default()
    };
    let e = Entry::parse_setting("mine", None, setting).unwrap();
    let args = e.configure_args(&d, false, false);
    assert_eq!(
        args,
        vec![
            "/home/u/.cache/llvmmgmt/mine".to_string(),
            "-DCMAKE_INSTALL_PREFIX=/home/u/.local/share/llvmmgmt/mine".to_string(),
            "-DCMAKE_BUILD_TYPE=Release".to_string(),
            "-DLLVM_TARGETS_TO_BUILD=X86;ARM".to_string(),
            "-DLLVM_ENABLE_ASSERTIONS=ON".to_string(),
        ]
    );
    let args = e.configure_args(&d, true, true);
    assert_eq!(args[3], "-DLLVM_CCACHE_BUILD=ON");
    assert_eq!(args[4], "-DLLVM_ENABLE_LLD=ON");
}

#[test]
fn build_args_exact() {
    let d = dirs();
    let mut setting = EntrySetting { url: Some("u".into()), ..Default::default() };
    setting.generator = CMakeGenerator::Ninja;
    let e = Entry::parse_setting("mine", None, setting).unwrap();
    assert_eq!(
        e.build_args(&d, 8),
        vec![
            "--build".to_string(),
            "/home/u/.cache/llvmmgmt/mine/build".to_string(),
            "--target".to_string(),
            "install".to_string(),
            "--".to_string(),
            "-j".to_string(),
            "8".to_string(),
        ]
    );
}

#[test]
fn fetch_plan_lists_primary_then_tools() {
    let d = dirs();
    let e = Entry::official(10, 0, 0);
    let plan = e.fetch_plan(&d).unwrap();
    assert_eq!(plan.len(), 11);
    assert_eq!(plan[0].dest, "/home/u/.cache/llvmmgmt/10.0.0");
    assert_eq!(
        plan[0].url,
        "https://github.com/llvm/llvm-project/releases/download/llvmorg-10.0.0/llvm-10.0.0.src.tar.xz"
    );
    assert_eq!(plan[1].dest, "/home/u/.cache/llvmmgmt/10.0.0/tools/clang");
}

#[test]
fn fetch_plan_rejects_unknown_tool() {
    let d = dirs();
    let setting = EntrySetting {
        url: Some("u".into()),
        tools: vec![Tool::new("stranger", "u2")],
        ..Default::default()
    };
    let e = Entry::parse_setting("mine", None, setting).unwrap();
    assert_eq!(
        e.fetch_plan(&d),
        Err(Error::UnknownToolPath { name: "stranger".to_string() })
    );
}

#[test]
fn fetch_plan_empty_for_local() {
    let d = dirs();
    let setting = EntrySetting { path: Some("/src/llvm".into()), ..Default::default() };
    let e = Entry::parse_setting("mine", None, setting).unwrap();
    assert_eq!(e.fetch_plan(&d).unwrap().len(), 0);
}
