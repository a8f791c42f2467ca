//! What is known of the build of the program.

use vstd::prelude::*;

verus! {

/// The facts of a build, as they were recorded when the program was built.
#[derive(Clone, Copy, Debug)]
pub struct BuildInfo {
    pub build_timestamp: &'static str,
    pub cargo_debug: &'static str,
    pub cargo_opt_level: &'static str,
    pub cargo_pkg_version: &'static str,
    pub cargo_target_triple: &'static str,
    pub rustc_channel: &'static str,
    pub rustc_semver: &'static str,
}

/// The facts of a build under their names, in the order of the names.
pub open spec fn version_entries(build: BuildInfo) -> Seq<(Seq<char>, Seq<char>)> {
    seq![
        ("build_timestamp"@, build.build_timestamp@),
        ("cargo_debug"@, build.cargo_debug@),
        ("cargo_opt_level"@, build.cargo_opt_level@),
        ("cargo_pkg_version"@, build.cargo_pkg_version@),
        ("cargo_target_triple"@, build.cargo_target_triple@),
        ("rustc_channel"@, build.rustc_channel@),
        ("rustc_semver"@, build.rustc_semver@),
    ]
}

/// The texts of a list of named values.
pub open spec fn entry_texts(entries: Seq<(&'static str, &'static str)>) -> Seq<
    (Seq<char>, Seq<char>),
> {
    Seq::new(entries.len(), |i: int| (entries[i].0@, entries[i].1@))
}

/// Reports the facts of a build under their names, in the order of the
/// names.
pub fn verison_info(build: &BuildInfo) -> (map: Vec<(&'static str, &'static str)>)
    ensures
        entry_texts(map@) == version_entries(*build),
{
    let mut map: Vec<(&'static str, &'static str)> = Vec::new();
    map.push(("build_timestamp", build.build_timestamp));
    map.push(("cargo_debug", build.cargo_debug));
    map.push(("cargo_opt_level", build.cargo_opt_level));
    map.push(("cargo_pkg_version", build.cargo_pkg_version));
    map.push(("cargo_target_triple", build.cargo_target_triple));
    map.push(("rustc_channel", build.rustc_channel));
    map.push(("rustc_semver", build.rustc_semver));
    assert(entry_texts(map@) =~= version_entries(*build));
    map
}

} // verus!
