//! Build-system detection: classifies a project directory listing into a
//! `BuildSystem` by marker files, in a fixed priority order.

use vstd::prelude::*;
use crate::model::BuildSystem;
use crate::text::str_eq;
use crate::text::ends_with_text;

verus! {

/// One entry of a directory listing, as handed in by the caller.
pub struct DirEntry {
    pub name: String,
    pub is_dir: bool,
}

/// The listing holds an entry (file or directory) with this exact name.
pub open spec fn has_entry(l: Seq<DirEntry>, name: Seq<char>) -> bool {
    exists|i: int| 0 <= i < l.len() && (#[trigger] l[i]).name@ == name
}

/// The listing holds a directory with this exact name.
pub open spec fn has_dir(l: Seq<DirEntry>, name: Seq<char>) -> bool {
    exists|i: int| 0 <= i < l.len() && (#[trigger] l[i]).name@ == name && l[i].is_dir
}

/// A sequence ends with the given suffix.
pub open spec fn seq_ends_with(s: Seq<char>, suffix: Seq<char>) -> bool {
    suffix.len() <= s.len() && s.subrange(s.len() - suffix.len(), s.len() as int) == suffix
}

/// The listing holds an entry whose name ends with this suffix.
pub open spec fn has_suffix(l: Seq<DirEntry>, suffix: Seq<char>) -> bool {
    exists|i: int| 0 <= i < l.len() && seq_ends_with((#[trigger] l[i]).name@, suffix)
}

/// The marker rule for each build system, per the detection table.
pub open spec fn marker_present(l: Seq<DirEntry>, s: BuildSystem) -> bool {
    match s {
        BuildSystem::Cargo => has_entry(l, "Cargo.toml"@),
        BuildSystem::Makefile => has_entry(l, "Makefile"@) || has_entry(l, "makefile"@),
        BuildSystem::CMake => has_entry(l, "CMakeLists.txt"@),
        BuildSystem::PlatformIO => has_entry(l, "platformio.ini"@),
        BuildSystem::ZephyrWest => has_entry(l, "west.yml"@) || has_dir(l, ".west"@),
        BuildSystem::STM32CubeIDE => has_suffix(l, ".project"@) || has_suffix(l, ".cproject"@),
        BuildSystem::SCons => has_entry(l, "SConstruct"@) || has_entry(l, "SConscript"@),
    }
}

/// Position of each build system in the fixed detection priority order.
pub open spec fn priority(s: BuildSystem) -> int {
    match s {
        BuildSystem::Cargo => 0,
        BuildSystem::Makefile => 1,
        BuildSystem::CMake => 2,
        BuildSystem::PlatformIO => 3,
        BuildSystem::ZephyrWest => 4,
        BuildSystem::STM32CubeIDE => 5,
        BuildSystem::SCons => 6,
    }
}

/// The classification: the highest-priority build system whose marker is
/// present, or `None` when no marker matches.
pub open spec fn detect_spec(l: Seq<DirEntry>) -> Option<BuildSystem> {
    if marker_present(l, BuildSystem::Cargo) {
        Some(BuildSystem::Cargo)
    } else if marker_present(l, BuildSystem::Makefile) {
        Some(BuildSystem::Makefile)
    } else if marker_present(l, BuildSystem::CMake) {
        Some(BuildSystem::CMake)
    } else if marker_present(l, BuildSystem::PlatformIO) {
        Some(BuildSystem::PlatformIO)
    } else if marker_present(l, BuildSystem::ZephyrWest) {
        Some(BuildSystem::ZephyrWest)
    } else if marker_present(l, BuildSystem::STM32CubeIDE) {
        Some(BuildSystem::STM32CubeIDE)
    } else if marker_present(l, BuildSystem::SCons) {
        Some(BuildSystem::SCons)
    } else {
        None
    }
}

fn listing_has_entry(listing: &Vec<DirEntry>, name: &str) -> (r: bool)
    ensures
        r == has_entry(listing@, name@),
{
    let mut i: usize = 0;
    while i < listing.len()
        invariant
            i <= listing@.len(),
            forall|k: int| 0 <= k < i ==> (#[trigger] listing@[k]).name@ != name@,
        decreases listing@.len() - i,
    {
        if str_eq(listing[i].name.as_str(), name) {
            return true;
        }
        i += 1;
    }
    false
}

fn listing_has_dir(listing: &Vec<DirEntry>, name: &str) -> (r: bool)
    ensures
        r == has_dir(listing@, name@),
{
    let mut i: usize = 0;
    while i < listing.len()
        invariant
            i <= listing@.len(),
            forall|k: int|
                0 <= k < i ==> !((#[trigger] listing@[k]).name@ == name@ && listing@[k].is_dir),
        decreases listing@.len() - i,
    {
        if listing[i].is_dir && str_eq(listing[i].name.as_str(), name) {
            return true;
        }
        i += 1;
    }
    false
}

fn listing_has_suffix(listing: &Vec<DirEntry>, suffix: &str) -> (r: bool)
    ensures
        r == has_suffix(listing@, suffix@),
{
    let mut i: usize = 0;
    while i < listing.len()
        invariant
            i <= listing@.len(),
            forall|k: int| 0 <= k < i ==> !seq_ends_with((#[trigger] listing@[k]).name@, suffix@),
        decreases listing@.len() - i,
    {
        if ends_with_text(listing[i].name.as_str(), suffix) {
            return true;
        }
        i += 1;
    }
    false
}

/// Classifies a directory listing into a build system using marker files,
/// checked in the fixed priority order; `None` when no marker matches.
pub fn detect_build_system(listing: &Vec<DirEntry>) -> (r: Option<BuildSystem>)
    ensures
        r == detect_spec(listing@),
{
    if listing_has_entry(listing, "Cargo.toml") {
        Some(BuildSystem::Cargo)
    } else if listing_has_entry(listing, "Makefile") || listing_has_entry(listing, "makefile") {
        Some(BuildSystem::Makefile)
    } else if listing_has_entry(listing, "CMakeLists.txt") {
        Some(BuildSystem::CMake)
    } else if listing_has_entry(listing, "platformio.ini") {
        Some(BuildSystem::PlatformIO)
    } else if listing_has_entry(listing, "west.yml") || listing_has_dir(listing, ".west") {
        Some(BuildSystem::ZephyrWest)
    } else if listing_has_suffix(listing, ".project") || listing_has_suffix(listing, ".cproject") {
        Some(BuildSystem::STM32CubeIDE)
    } else if listing_has_entry(listing, "SConstruct") || listing_has_entry(listing, "SConscript") {
        Some(BuildSystem::SCons)
    } else {
        None
    }
}

/// Detection resolves multiple markers deterministically: the result's marker
/// is present, and no higher-priority system has a marker in the listing.
pub proof fn lemma_detect_priority(l: Seq<DirEntry>)
    ensures
        detect_spec(l) matches Some(s) ==> marker_present(l, s) && (forall|s2: BuildSystem|
            #[trigger] marker_present(l, s2) ==> priority(s) <= priority(s2)),
        detect_spec(l) is None ==> forall|s2: BuildSystem| !(#[trigger] marker_present(l, s2)),
{
    if detect_spec(l) is Some {
        let s = detect_spec(l)->Some_0;
        assert forall|s2: BuildSystem| #[trigger] marker_present(l, s2) implies priority(s)
            <= priority(s2) by {
            match s2 {
                BuildSystem::Cargo => {},
                BuildSystem::Makefile => {},
                BuildSystem::CMake => {},
                BuildSystem::PlatformIO => {},
                BuildSystem::ZephyrWest => {},
                BuildSystem::STM32CubeIDE => {},
                BuildSystem::SCons => {},
            }
        }
    } else {
        assert forall|s2: BuildSystem| !(#[trigger] marker_present(l, s2)) by {
            match s2 {
                BuildSystem::Cargo => {},
                BuildSystem::Makefile => {},
                BuildSystem::CMake => {},
                BuildSystem::PlatformIO => {},
                BuildSystem::ZephyrWest => {},
                BuildSystem::STM32CubeIDE => {},
                BuildSystem::SCons => {},
            }
        }
    }
}

} // verus!
