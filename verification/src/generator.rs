//! The build-file-generation backend selected per entry, and the build type.
//!
//! Each generator variant maps deterministically to configuration-time
//! command-line options and to build-time options parameterized by a
//! concurrency hint and the selected build type.

use vstd::prelude::*;
use crate::error::Error;
use crate::text::{dec_chars, lower_eq, lower_matches, texts, u64_to_string};

verus! {

/// The generator backend handed to the external builder.
#[derive(Debug, Clone, Copy, PartialEq, Eq, Structural)]
pub enum CMakeGenerator {
    /// Use the platform's default generator (no explicit selection).
    Platform,
    /// Unix Makefile
    Makefile,
    /// Ninja generator
    Ninja,
    /// Visual Studio 15 2017
    VisualStudio,
    /// Visual Studio 15 2017 Win64
    VisualStudioWin64,
}

impl Default for CMakeGenerator {
    /// The default generator is the platform default.
    fn default() -> (r: Self)
        ensures
            r == CMakeGenerator::Platform,
    {
        CMakeGenerator::Platform
    }
}

/// Which generator a name denotes, up to ASCII case; `vs` is an accepted
/// alias for Visual Studio. `None` means the name is not a known generator.
pub open spec fn generator_of(s: Seq<char>) -> Option<CMakeGenerator> {
    if lower_eq(s, "makefile"@) {
        Some(CMakeGenerator::Makefile)
    } else if lower_eq(s, "ninja"@) {
        Some(CMakeGenerator::Ninja)
    } else if lower_eq(s, "visualstudio"@) || lower_eq(s, "vs"@) {
        Some(CMakeGenerator::VisualStudio)
    } else {
        None
    }
}

/// The configuration-time options of a generator.
pub open spec fn generator_option_texts(g: CMakeGenerator) -> Seq<Seq<char>> {
    match g {
        CMakeGenerator::Platform => seq![],
        CMakeGenerator::Makefile => seq!["-G"@, "Unix Makefiles"@],
        CMakeGenerator::Ninja => seq!["-G"@, "Ninja"@],
        CMakeGenerator::VisualStudio => seq!["-G"@, "Visual Studio 15 2017"@],
        CMakeGenerator::VisualStudioWin64 => seq![
            "-G"@,
            "Visual Studio 15 2017 Win64"@,
            "-Thost=x64"@,
        ],
    }
}

/// The build-time options of a generator: IDE-project generators pass a
/// configuration-name flag, command-line generators pass a parallelism flag.
pub open spec fn generator_build_option_texts(
    g: CMakeGenerator,
    nproc: nat,
    build_type: BuildType,
) -> Seq<Seq<char>> {
    match g {
        CMakeGenerator::VisualStudio | CMakeGenerator::VisualStudioWin64 => seq![
            "--config"@,
            build_type_chars(build_type),
        ],
        CMakeGenerator::Platform => seq![],
        CMakeGenerator::Makefile | CMakeGenerator::Ninja => seq![
            "--"@,
            "-j"@,
            dec_chars(nproc),
        ],
    }
}

impl CMakeGenerator {
    /// Parse a generator name, ignoring ASCII case.
    pub fn from_str(generator: &str) -> (r: Result<CMakeGenerator, Error>)
        ensures
            generator_of(generator@) matches Some(g) ==> r == Ok::<CMakeGenerator, Error>(g),
            generator_of(generator@) is None ==> (r matches Err(e)
                && e matches Error::UnsupportedGenerator { generator: g } && g@ == generator@),
    {
        if lower_matches(generator, "makefile") {
            Ok(CMakeGenerator::Makefile)
        } else if lower_matches(generator, "ninja") {
            Ok(CMakeGenerator::Ninja)
        } else if lower_matches(generator, "visualstudio") || lower_matches(generator, "vs") {
            Ok(CMakeGenerator::VisualStudio)
        } else {
            Err(Error::UnsupportedGenerator { generator: generator.to_owned() })
        }
    }

    /// The configuration-time option list for this generator.
    pub fn option(&self) -> (r: Vec<String>)
        ensures
            texts(r@) == generator_option_texts(*self),
    {
        let mut v: Vec<String> = Vec::new();
        match self {
            CMakeGenerator::Platform => {},
            CMakeGenerator::Makefile => {
                v.push("-G".to_owned());
                v.push("Unix Makefiles".to_owned());
            },
            CMakeGenerator::Ninja => {
                v.push("-G".to_owned());
                v.push("Ninja".to_owned());
            },
            CMakeGenerator::VisualStudio => {
                v.push("-G".to_owned());
                v.push("Visual Studio 15 2017".to_owned());
            },
            CMakeGenerator::VisualStudioWin64 => {
                v.push("-G".to_owned());
                v.push("Visual Studio 15 2017 Win64".to_owned());
                v.push("-Thost=x64".to_owned());
            },
        }
        proof {
            assert(texts(v@) =~= generator_option_texts(*self));
        }
        v
    }

    /// The build-time option list for this generator, given the concurrency
    /// hint and the build type.
    pub fn build_option(&self, nproc: usize, build_type: BuildType) -> (r: Vec<String>)
        ensures
            texts(r@) == generator_build_option_texts(*self, nproc as nat, build_type),
    {
        let mut v: Vec<String> = Vec::new();
        match self {
            CMakeGenerator::VisualStudio | CMakeGenerator::VisualStudioWin64 => {
                v.push("--config".to_owned());
                v.push(build_type.name_text());
            },
            CMakeGenerator::Platform => {},
            CMakeGenerator::Makefile | CMakeGenerator::Ninja => {
                v.push("--".to_owned());
                v.push("-j".to_owned());
                v.push(u64_to_string(nproc as u64));
            },
        }
        proof {
            assert(texts(v@) =~= generator_build_option_texts(*self, nproc as nat, build_type));
        }
        v
    }
}

/// Two characters that are the same letter up to ASCII case, or the same
/// character.
pub open spec fn same_char_ci(c1: char, c2: char) -> bool {
    c1 == c2 || (c1 as int + 32 == c2 as int && 'A' <= c1 <= 'Z') || (c2 as int + 32 == c1 as int
        && 'A' <= c2 <= 'Z')
}

/// Two texts that are equal up to ASCII case.
pub open spec fn same_text_ci(s1: Seq<char>, s2: Seq<char>) -> bool {
    s1.len() == s2.len() && (forall|i: int|
        0 <= i < s1.len() ==> same_char_ci(s1[i], #[trigger] s2[i]))
}

/// Against a pattern free of upper-case letters, case-folded comparison
/// cannot tell two case-equal texts apart.
proof fn lemma_lower_eq_ci(s1: Seq<char>, s2: Seq<char>, p: Seq<char>)
    requires
        same_text_ci(s1, s2),
        forall|i: int| 0 <= i < p.len() ==> !('A' <= #[trigger] p[i] <= 'Z'),
    ensures
        lower_eq(s1, p) == lower_eq(s2, p),
{
    assert forall|i: int| 0 <= i < s1.len() && i < p.len() implies (crate::text::lower_eq_char(
        s1[i],
        p[i],
    ) == crate::text::lower_eq_char(s2[i], p[i])) by {
        assert(same_char_ci(s1[i], s2[i]));
    }
}

/// Generator name parsing is case-insensitive: names equal up to ASCII case
/// denote the same generator, or are both unknown.
pub proof fn lemma_generator_of_case_insensitive(s1: Seq<char>, s2: Seq<char>)
    requires
        same_text_ci(s1, s2),
    ensures
        generator_of(s1) == generator_of(s2),
{
    reveal_strlit("makefile");
    reveal_strlit("ninja");
    reveal_strlit("visualstudio");
    reveal_strlit("vs");
    assert(forall|i: int| 0 <= i < "makefile"@.len() ==> !('A' <= #[trigger] "makefile"@[i]
        <= 'Z'));
    assert(forall|i: int| 0 <= i < "ninja"@.len() ==> !('A' <= #[trigger] "ninja"@[i] <= 'Z'));
    assert(forall|i: int| 0 <= i < "visualstudio"@.len() ==> !('A'
        <= #[trigger] "visualstudio"@[i] <= 'Z'));
    assert(forall|i: int| 0 <= i < "vs"@.len() ==> !('A' <= #[trigger] "vs"@[i] <= 'Z'));
    lemma_lower_eq_ci(s1, s2, "makefile"@);
    lemma_lower_eq_ci(s1, s2, "ninja"@);
    lemma_lower_eq_ci(s1, s2, "visualstudio"@);
    lemma_lower_eq_ci(s1, s2, "vs"@);
}

/// The build type handed to the external builder.
#[derive(Debug, Clone, Copy, PartialEq, Eq, Structural)]
pub enum BuildType {
    Debug,
    Release,
    RelWithDebInfo,
    MinSizeRel,
}

impl Default for BuildType {
    /// The default build type is `Release`.
    fn default() -> (r: Self)
        ensures
            r == BuildType::Release,
    {
        BuildType::Release
    }
}

/// The canonical name of a build type, as the external builder spells it.
pub open spec fn build_type_chars(t: BuildType) -> Seq<char> {
    match t {
        BuildType::Debug => "Debug"@,
        BuildType::Release => "Release"@,
        BuildType::RelWithDebInfo => "RelWithDebInfo"@,
        BuildType::MinSizeRel => "MinSizeRel"@,
    }
}

/// Which build type a name denotes, up to ASCII case.
pub open spec fn build_type_of(s: Seq<char>) -> Option<BuildType> {
    if lower_eq(s, "debug"@) {
        Some(BuildType::Debug)
    } else if lower_eq(s, "release"@) {
        Some(BuildType::Release)
    } else if lower_eq(s, "relwithdebinfo"@) {
        Some(BuildType::RelWithDebInfo)
    } else if lower_eq(s, "minsizerel"@) {
        Some(BuildType::MinSizeRel)
    } else {
        None
    }
}

impl BuildType {
    /// Parse a build-type name, ignoring ASCII case.
    pub fn from_str(s: &str) -> (r: Result<BuildType, Error>)
        ensures
            build_type_of(s@) matches Some(t) ==> r == Ok::<BuildType, Error>(t),
            build_type_of(s@) is None ==> (r matches Err(e)
                && e matches Error::UnsupportedBuildType { build_type: b } && b@ == s@),
    {
        if lower_matches(s, "debug") {
            Ok(BuildType::Debug)
        } else if lower_matches(s, "release") {
            Ok(BuildType::Release)
        } else if lower_matches(s, "relwithdebinfo") {
            Ok(BuildType::RelWithDebInfo)
        } else if lower_matches(s, "minsizerel") {
            Ok(BuildType::MinSizeRel)
        } else {
            Err(Error::UnsupportedBuildType { build_type: s.to_owned() })
        }
    }

    /// The canonical name of this build type.
    pub fn name_text(&self) -> (r: String)
        ensures
            r@ == build_type_chars(*self),
    {
        match self {
            BuildType::Debug => "Debug".to_owned(),
            BuildType::Release => "Release".to_owned(),
            BuildType::RelWithDebInfo => "RelWithDebInfo".to_owned(),
            BuildType::MinSizeRel => "MinSizeRel".to_owned(),
        }
    }
}

} // verus!
