use llvmmgmt::error::Error;
use llvmmgmt::generator::{BuildType, CMakeGenerator};
use llvmmgmt::version::{parse_version, Version};

#[test]
fn test_parse_version() -> Result<(), Error> {
    let version = "clang version 6.0.1-svn331815-1~exp1~20180510084719.80 (branches/release_60)";
    assert_eq!(parse_version(version)?, Version::new(6, 0, 1));

    let version = "clang version 10.0.0 \
        (https://github.com/llvm-mirror/clang 65acf43270ea2894dffa0d0b292b92402f80c8cb)";
    assert_eq!(parse_version(version)?, Version::new(10, 0, 0));

    let version = "123+456y0";
    assert!(parse_version(version).is_err());
    assert_eq!(
        parse_version("foo 123.456.789 bar")?,
        Version::new(123, 456, 789)
    );

    Ok(())
}

#[test]
fn parse_version_first_triple_wins() {
    assert_eq!(parse_version("1.2.3.4").unwrap(), Version::new(1, 2, 3));
    assert_eq!(parse_version("a 4.5.6 and 7.8.9").unwrap(), Version::new(4, 5, 6));
}

#[test]
fn parse_version_no_triple_reports_whole_text() {
    assert_eq!(
        parse_version("nothing here"),
        Err(Error::InvalidVersion { version: "nothing here".to_string() })
    );
    assert!(parse_version("1.2 only two").is_err());
}

#[test]
fn parse_version_rejects_leading_zero_component() {
    // The first match decides; it is then rejected, not retried further on.
    assert_eq!(
        parse_version("x 01.2.3 y 1.2.3"),
        Err(Error::InvalidVersion { version: "01.2.3".to_string() })
    );
    assert_eq!(parse_version("0.2.3 z").unwrap(), Version::new(0, 2, 3));
}

#[test]
fn parse_version_rejects_component_overflow() {
    assert_eq!(
        parse_version("99999999999999999999.0.0"),
        Err(Error::InvalidVersion { version: "99999999999999999999.0.0".to_string() })
    );
    // The largest representable component still parses.
    assert_eq!(
        parse_version("18446744073709551615.0.1").unwrap(),
        Version::new(18446744073709551615, 0, 1)
    );
}

#[test]
fn version_renders_as_dotted_triple() {
    assert_eq!(Version::new(21, 1, 1).to_text(), "21.1.1");
    assert_eq!(Version::new(0, 0, 0).to_text(), "0.0.0");
    assert_eq!(Version::new(10, 0, 7).to_text(), "10.0.7");
}

#[test]
fn generator_names_parse_case_insensitively() {
    assert_eq!(CMakeGenerator::from_str("Makefile").unwrap(), CMakeGenerator::Makefile);
    assert_eq!(CMakeGenerator::from_str("NINJA").unwrap(), CMakeGenerator::Ninja);
    assert_eq!(CMakeGenerator::from_str("vs").unwrap(), CMakeGenerator::VisualStudio);
    assert_eq!(CMakeGenerator::from_str("VS").unwrap(), CMakeGenerator::VisualStudio);
    assert_eq!(
        CMakeGenerator::from_str("VisualStudio").unwrap(),
        CMakeGenerator::VisualStudio
    );
    assert_eq!(
        CMakeGenerator::from_str("MySuperBuilder"),
        Err(Error::UnsupportedGenerator { generator: "MySuperBuilder".to_string() })
    );
}

#[test]
fn build_type_names_parse_case_insensitively() {
    assert_eq!(BuildType::from_str("debug").unwrap(), BuildType::Debug);
    assert_eq!(BuildType::from_str("Release").unwrap(), BuildType::Release);
    assert_eq!(BuildType::from_str("RelWithDebInfo").unwrap(), BuildType::RelWithDebInfo);
    assert_eq!(BuildType::from_str("MINSIZEREL").unwrap(), BuildType::MinSizeRel);
    assert_eq!(
        BuildType::from_str("fastest"),
        Err(Error::UnsupportedBuildType { build_type: "fastest".to_string() })
    );
}

#[test]
fn generator_options_exact() {
    assert_eq!(CMakeGenerator::Platform.option(), Vec::<String>::new());
    assert_eq!(CMakeGenerator::Ninja.option(), vec!["-G".to_string(), "Ninja".to_string()]);
    assert_eq!(
        CMakeGenerator::Makefile.option(),
        vec!["-G".to_string(), "Unix Makefiles".to_string()]
    );
    assert_eq!(
        CMakeGenerator::VisualStudioWin64.option(),
        vec![
            "-G".to_string(),
            "Visual Studio 15 2017 Win64".to_string(),
            "-Thost=x64".to_string(),
        ]
    );
}

#[test]
fn generator_build_options_exact() {
    assert_eq!(
        CMakeGenerator::Ninja.build_option(8, BuildType::Release),
        vec!["--".to_string(), "-j".to_string(), "8".to_string()]
    );
    assert_eq!(
        CMakeGenerator::Makefile.build_option(12, BuildType::Debug),
        vec!["--".to_string(), "-j".to_string(), "12".to_string()]
    );
    assert_eq!(
        CMakeGenerator::VisualStudio.build_option(8, BuildType::RelWithDebInfo),
        vec!["--config".to_string(), "RelWithDebInfo".to_string()]
    );
    assert_eq!(
        CMakeGenerator::Platform.build_option(8, BuildType::Release),
        Vec::<String>::new()
    );
}
