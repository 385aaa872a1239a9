use llvmmgmt::config::{shell_script, Dirs, BASH_SCRIPT, ZSH_SCRIPT};
use llvmmgmt::error::Error;
use llvmmgmt::registry::{
    builds, expand_args, get_existing_build, marker_path, seek_build, Build, Probe,
};

fn dirs() -> Dirs {
    Dirs {
        config: "/home/u/.config/llvmmgmt".to_string(),
        data: "/home/u/.local/share/llvmmgmt".to_string(),
        cache: "/home/u/.cache/llvmmgmt".to_string(),
    }
}

fn probe(marker: &str, name: &str, exists: bool) -> Probe {
    Probe { marker_file: marker.to_string(), name: name.to_string(), exists }
}

#[test]
fn from_name_places_builds_under_data_root() {
    let d = dirs();
    let b = Build::from_name("10.0.0", &d);
    assert_eq!(b.name(), "10.0.0");
    assert_eq!(b.prefix(), "/home/u/.local/share/llvmmgmt/10.0.0");
    assert_eq!(b.env_path(), None);
    let s = Build::from_name("system", &d);
    assert_eq!(s.name(), "system");
    assert_eq!(s.prefix(), "/usr");
}

#[test]
fn from_path_names_by_last_component() {
    let b = Build::from_path("/home/u/.local/share/llvmmgmt/mine");
    assert_eq!(b.name(), "mine");
    assert_eq!(b.prefix(), "/home/u/.local/share/llvmmgmt/mine");
    let b = Build::from_path("plain");
    assert_eq!(b.name(), "plain");
}

#[test]
fn get_existing_build_rejects_missing() {
    let d = dirs();
    let b = get_existing_build("10.0.0", true, &d).unwrap();
    assert_eq!(b.name(), "10.0.0");
    assert_eq!(
        get_existing_build("gone", false, &d),
        Err(Error::InvalidBuild {
            name: "gone".to_string(),
            message: "Build does not exist".to_string(),
        })
    );
}

#[test]
fn builds_sorted_with_system_first() {
    let locals = vec![
        Build::from_path("/data/zeta"),
        Build::from_path("/data/alpha"),
        Build::from_path("/data/mu"),
    ];
    let all = builds(locals);
    let names: Vec<&str> = all.iter().map(|b| b.name()).collect();
    assert_eq!(names, vec!["system", "alpha", "mu", "zeta"]);
    assert_eq!(all[0].prefix(), "/usr");
}

#[test]
fn seek_build_nearest_marker_wins() {
    let d = dirs();
    // A local marker at /a/b names X; the global location names Y. Resolving
    // below /a/b sees the local one first.
    let probes = vec![
        probe("/a/b/.llvmmgmt", "X", true),
        probe("/home/u/.config/llvmmgmt/.llvmmgmt", "Y", true),
    ];
    let b = seek_build(&probes, &d);
    assert_eq!(b.name(), "X");
    assert_eq!(b.env_path(), Some("/a/b/.llvmmgmt"));

    // Without a local marker, the global one decides.
    let probes = vec![probe("/home/u/.config/llvmmgmt/.llvmmgmt", "Y", true)];
    let b = seek_build(&probes, &d);
    assert_eq!(b.name(), "Y");
    assert_eq!(b.prefix(), "/home/u/.local/share/llvmmgmt/Y");

    // With no marker at all, the system build is active.
    let b = seek_build(&Vec::new(), &d);
    assert_eq!(b.name(), "system");
    assert_eq!(b.env_path(), None);
}

#[test]
fn seek_build_ignores_markers_of_missing_builds() {
    let d = dirs();
    let probes = vec![
        probe("/a/b/c/.llvmmgmt", "gone", false),
        probe("/a/b/.llvmmgmt", "X", true),
    ];
    let b = seek_build(&probes, &d);
    assert_eq!(b.name(), "X");
    assert_eq!(b.env_path(), Some("/a/b/.llvmmgmt"));

    let probes = vec![probe("/a/.llvmmgmt", "gone", false)];
    let b = seek_build(&probes, &d);
    assert_eq!(b.name(), "system");
}

#[test]
fn seek_build_marker_can_name_system() {
    let d = dirs();
    let probes = vec![probe("/a/.llvmmgmt", "system", true)];
    let b = seek_build(&probes, &d);
    assert_eq!(b.name(), "system");
    assert_eq!(b.prefix(), "/usr");
    assert_eq!(b.env_path(), Some("/a/.llvmmgmt"));
}

#[test]
fn marker_path_is_under_the_directory() {
    assert_eq!(marker_path("/a/b"), "/a/b/.llvmmgmt");
}

#[test]
fn archive_arguments_exact() {
    let d = dirs();
    let b = Build::from_name("10.0.0", &d);
    assert_eq!(
        b.archive_args(false),
        vec![
            "cf".to_string(),
            "10.0.0.tar.xz".to_string(),
            "--use-compress-prog=pixz".to_string(),
            "10.0.0".to_string(),
        ]
    );
    assert_eq!(b.archive_args(true)[0], "cvf");
    assert_eq!(b.archive_path(&d), "/home/u/.local/share/llvmmgmt/10.0.0.tar.xz");
}

#[test]
fn expand_arguments_exact() {
    assert_eq!(
        expand_args("/tmp/10.0.0.tar.xz", false),
        vec!["xf".to_string(), "/tmp/10.0.0.tar.xz".to_string()]
    );
    assert_eq!(
        expand_args("/tmp/10.0.0.tar.xz", true),
        vec!["xvf".to_string(), "/tmp/10.0.0.tar.xz".to_string()]
    );
}

#[test]
fn shell_scripts_by_name() {
    assert_eq!(shell_script("zsh").unwrap(), ZSH_SCRIPT);
    assert_eq!(shell_script("bash").unwrap(), BASH_SCRIPT);
    assert_eq!(
        shell_script("fish"),
        Err(Error::UnsupportedShell { shell: "fish".to_string() })
    );
}
