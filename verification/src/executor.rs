//! Build execution support: the error taxonomy, assembly of one attempt's
//! outcome from the tool's exit status and the artifact search, and the
//! per-system artifact candidate tables and selection rules.

use vstd::prelude::*;
use crate::model::BuildResult;
use crate::model::BuildSystem;
use crate::strategy::strings_view;
use crate::text::concat2;
use crate::text::str_eq;

verus! {

/// Why a build request failed.
#[derive(Debug)]
pub enum BuildError {
    /// No build system was detected in the project directory.
    UnsupportedBuildSystem,
    /// The build tool exited non-zero; carries the captured stderr.
    ToolInvocationFailure(String),
    /// The tool exited zero but no artifact could be located.
    ArtifactNotFound,
    /// Applying a remediation strategy failed; carries the reason.
    StrategyApplicationFailure(String),
    /// An operation named a job id that is not in the store.
    JobNotFound,
    /// The job was cancelled.
    Cancelled,
}

impl BuildError {
    /// A human-readable, never-empty description of the failure.
    pub fn message(&self) -> (r: String)
        ensures
            r@.len() > 0,
            match self {
                BuildError::UnsupportedBuildSystem => r@ == "Unsupported or undetected build system"@,
                BuildError::ToolInvocationFailure(e) => r@ == "Build tool failed: "@ + e@,
                BuildError::ArtifactNotFound => r@ == "Build succeeded but no artifact was found"@,
                BuildError::StrategyApplicationFailure(e) => r@ == "Strategy application failed: "@
                    + e@,
                BuildError::JobNotFound => r@ == "Job not found"@,
                BuildError::Cancelled => r@ == "Job cancelled"@,
            },
    {
        match self {
            BuildError::UnsupportedBuildSystem => {
                let r = "Unsupported or undetected build system".to_owned();
                proof {
                    reveal_strlit("Unsupported or undetected build system");
                }
                r
            },
            BuildError::ToolInvocationFailure(e) => {
                let r = concat2("Build tool failed: ", e.as_str());
                proof {
                    reveal_strlit("Build tool failed: ");
                }
                r
            },
            BuildError::ArtifactNotFound => {
                let r = "Build succeeded but no artifact was found".to_owned();
                proof {
                    reveal_strlit("Build succeeded but no artifact was found");
                }
                r
            },
            BuildError::StrategyApplicationFailure(e) => {
                let r = concat2("Strategy application failed: ", e.as_str());
                proof {
                    reveal_strlit("Strategy application failed: ");
                }
                r
            },
            BuildError::JobNotFound => {
                let r = "Job not found".to_owned();
                proof {
                    reveal_strlit("Job not found");
                }
                r
            },
            BuildError::Cancelled => {
                let r = "Job cancelled".to_owned();
                proof {
                    reveal_strlit("Job cancelled");
                }
                r
            },
        }
    }
}

/// A successful attempt's record: the located artifact, its format tag, the
/// build system and the measured duration.
pub fn create_build_result(
    output_path: String,
    target_format: String,
    build_system: BuildSystem,
    duration_ms: u64,
) -> (r: BuildResult)
    ensures
        r.success,
        r.output_path == Some(output_path),
        r.target_format == Some(target_format),
        r.error_output is None,
        r.build_system == build_system,
        r.duration_ms == duration_ms,
{
    BuildResult {
        success: true,
        output_path: Some(output_path),
        target_format: Some(target_format),
        error_output: None,
        build_system,
        duration_ms,
    }
}

/// What the build tool's child process reported: whether it exited zero,
/// and its captured stderr.
pub struct ToolRun {
    pub exit_ok: bool,
    pub stderr: String,
}

/// Folds one attempt together: a non-zero exit is a hard failure carrying
/// the stderr; a zero exit without a located artifact is still a failure;
/// only a zero exit with an artifact yields a successful result. A failed
/// tool run can never produce `success == true`.
pub fn finish_attempt(
    system: BuildSystem,
    run: ToolRun,
    artifact: Option<(String, String)>,
    duration_ms: u64,
) -> (r: Result<BuildResult, BuildError>)
    ensures
        !run.exit_ok ==> (r matches Err(BuildError::ToolInvocationFailure(e)) && e == run.stderr),
        !run.exit_ok ==> !(r matches Ok(b) && b.success),
        run.exit_ok && artifact is None ==> r matches Err(BuildError::ArtifactNotFound),
        run.exit_ok ==> (artifact matches Some((p, f)) ==> (r matches Ok(b) && b.success
            && b.output_path == Some(p) && b.target_format == Some(f) && b.error_output is None
            && b.build_system == system && b.duration_ms == duration_ms)),
{
    if !run.exit_ok {
        return Err(BuildError::ToolInvocationFailure(run.stderr));
    }
    match artifact {
        Some((path, format)) => Ok(create_build_result(path, format, system, duration_ms)),
        None => Err(BuildError::ArtifactNotFound),
    }
}

/// The candidate names tried for one base pattern: the bare pattern, then
/// the pattern under each common firmware extension, then the bare pattern
/// again (the empty extension).
pub open spec fn pattern_candidates(p: Seq<char>) -> Seq<Seq<char>> {
    seq![p, p + ".elf"@, p + ".bin"@, p + ".hex"@, p + ".out"@, p]
}

/// All candidates of a pattern list, in order.
pub open spec fn cross_candidates(ps: Seq<Seq<char>>) -> Seq<Seq<char>>
    decreases ps.len(),
{
    if ps.len() == 0 {
        Seq::empty()
    } else {
        cross_candidates(ps.drop_last()) + pattern_candidates(ps.last())
    }
}

/// The base patterns searched for each build system's artifact, relative
/// to the directory that system's tool leaves its output in. Zephyr,
/// PlatformIO and the native toolchain have their own search rules.
pub open spec fn system_patterns(system: BuildSystem) -> Seq<Seq<char>> {
    match system {
        BuildSystem::Makefile => seq![
            "firmware"@,
            "main"@,
            "app"@,
            "output"@,
            "build/firmware"@,
            "bin/firmware"@,
            "out/firmware"@,
            "dist/firmware"@,
        ],
        BuildSystem::CMake => seq![
            "firmware"@,
            "main"@,
            "app"@,
            "bin/firmware"@,
            "bin/main"@,
            "src/firmware"@,
            "src/main"@,
        ],
        BuildSystem::SCons => seq![
            "build/firmware"@,
            "build/main"@,
            "firmware"@,
            "main"@,
            "output/firmware"@,
            "bin/firmware"@,
        ],
        _ => Seq::empty(),
    }
}

fn push_pattern_candidates(out: &mut Vec<String>, p: &str)
    ensures
        strings_view(final(out)@) == strings_view(old(out)@) + pattern_candidates(p@),
{
    let ghost base = strings_view(out@);
    out.push(p.to_owned());
    out.push(concat2(p, ".elf"));
    out.push(concat2(p, ".bin"));
    out.push(concat2(p, ".hex"));
    out.push(concat2(p, ".out"));
    out.push(p.to_owned());
    proof {
        assert forall|k: int| 0 <= k < out@.len() implies #[trigger] strings_view(out@)[k] == (base
            + pattern_candidates(p@))[k] by {
            assert(strings_view(out@)[k] == out@[k]@);
            if k < base.len() {
                assert(out@[k] == old(out)@[k]);
                assert(base[k] == old(out)@[k]@);
            }
        }
        assert(strings_view(out@) =~= base + pattern_candidates(p@));
    }
}

/// The ordered candidate paths for a build system whose artifact is found
/// by crossing its base patterns with the common firmware extensions.
#[verifier::loop_isolation(false)]
pub fn artifact_candidates(system: BuildSystem) -> (r: Vec<String>)
    ensures
        strings_view(r@) == cross_candidates(system_patterns(system)),
{
    let mut patterns: Vec<&str> = Vec::new();
    match system {
        BuildSystem::Makefile => {
            patterns.push("firmware");
            patterns.push("main");
            patterns.push("app");
            patterns.push("output");
            patterns.push("build/firmware");
            patterns.push("bin/firmware");
            patterns.push("out/firmware");
            patterns.push("dist/firmware");
        },
        BuildSystem::CMake => {
            patterns.push("firmware");
            patterns.push("main");
            patterns.push("app");
            patterns.push("bin/firmware");
            patterns.push("bin/main");
            patterns.push("src/firmware");
            patterns.push("src/main");
        },
        BuildSystem::SCons => {
            patterns.push("build/firmware");
            patterns.push("build/main");
            patterns.push("firmware");
            patterns.push("main");
            patterns.push("output/firmware");
            patterns.push("bin/firmware");
        },
        _ => {},
    }
    proof {
        assert(patterns@.map_values(|s: &str| s@) =~= system_patterns(system));
    }
    let ghost ps = system_patterns(system);
    let mut out: Vec<String> = Vec::new();
    let mut i: usize = 0;
    proof {
        assert(cross_candidates(ps.take(0)) =~= Seq::<Seq<char>>::empty());
        assert(strings_view(out@) =~= Seq::<Seq<char>>::empty());
    }
    while i < patterns.len()
        invariant
            i <= patterns@.len(),
            strings_view(out@) == cross_candidates(ps.take(i as int)),
        decreases patterns@.len() - i,
    {
        proof {
            assert(ps.take(i + 1).drop_last() =~= ps.take(i as int));
            assert(ps.take(i + 1).last() == ps[i as int]);
            assert(ps[i as int] == patterns@[i as int]@);
        }
        push_pattern_candidates(&mut out, patterns[i]);
        i += 1;
    }
    proof {
        assert(ps.take(patterns@.len() as int) =~= ps);
    }
    out
}

fn files_contain(files: &Vec<String>, name: &str) -> (r: bool)
    ensures
        r == strings_view(files@).contains(name@),
{
    let mut i: usize = 0;
    while i < files.len()
        invariant
            i <= files@.len(),
            forall|k: int| 0 <= k < i ==> #[trigger] strings_view(files@)[k] != name@,
        decreases files@.len() - i,
    {
        proof {
            assert(strings_view(files@)[i as int] == files@[i as int]@);
        }
        if str_eq(files[i].as_str(), name) {
            return true;
        }
        i += 1;
    }
    false
}

/// The first candidate that names an existing file, in candidate order.
pub open spec fn first_present(cands: Seq<Seq<char>>, files: Seq<Seq<char>>) -> Option<Seq<char>>
    decreases cands.len(),
{
    if cands.len() == 0 {
        None
    } else if files.contains(cands[0]) {
        Some(cands[0])
    } else {
        first_present(cands.skip(1), files)
    }
}

/// Picks the first candidate path present among the existing files, or
/// `None` when no candidate exists.
#[verifier::loop_isolation(false)]
pub fn select_artifact(candidates: &Vec<String>, files: &Vec<String>) -> (r: Option<String>)
    ensures
        match r {
            Some(p) => first_present(strings_view(candidates@), strings_view(files@)) == Some(p@),
            None => first_present(strings_view(candidates@), strings_view(files@)) is None,
        },
{
    let ghost cs = strings_view(candidates@);
    let ghost fs = strings_view(files@);
    proof {
        assert(cs.skip(0) =~= cs);
    }
    let mut i: usize = 0;
    while i < candidates.len()
        invariant
            i <= candidates@.len(),
            first_present(cs, fs) == first_present(cs.skip(i as int), fs),
        decreases candidates@.len() - i,
    {
        proof {
            assert(cs.skip(i as int)[0] == cs[i as int]);
            assert(cs[i as int] == candidates@[i as int]@);
        }
        if files_contain(files, candidates[i].as_str()) {
            return Some(candidates[i].clone());
        }
        proof {
            assert(cs.skip(i as int).skip(1) =~= cs.skip(i + 1));
        }
        i += 1;
    }
    proof {
        assert(cs.skip(candidates@.len() as int) =~= Seq::<Seq<char>>::empty());
    }
    None
}

/// The first candidate pair whose path names an existing file.
pub open spec fn first_present_tagged(
    cands: Seq<(Seq<char>, Seq<char>)>,
    files: Seq<Seq<char>>,
) -> Option<(Seq<char>, Seq<char>)>
    decreases cands.len(),
{
    if cands.len() == 0 {
        None
    } else if files.contains(cands[0].0) {
        Some(cands[0])
    } else {
        first_present_tagged(cands.skip(1), files)
    }
}

/// Where Zephyr leaves its binary, in search order, with each format tag.
pub open spec fn zephyr_candidates() -> Seq<(Seq<char>, Seq<char>)> {
    seq![
        ("build/zephyr/zephyr.elf"@, "elf"@),
        ("build/zephyr/zephyr.bin"@, "bin"@),
        ("build/zephyr/zephyr.hex"@, "hex"@),
        ("build/app.elf"@, "elf"@),
    ]
}

/// Picks the Zephyr artifact: `build/zephyr/zephyr.elf` first, then the
/// documented alternates, each tagged with its format.
#[verifier::loop_isolation(false)]
pub fn select_zephyr_artifact(files: &Vec<String>) -> (r: Option<(String, String)>)
    ensures
        match r {
            Some(pf) => first_present_tagged(zephyr_candidates(), strings_view(files@)) == Some(
                (pf.0@, pf.1@),
            ),
            None => first_present_tagged(zephyr_candidates(), strings_view(files@)) is None,
        },
{
    let ghost zc = zephyr_candidates();
    let ghost fs = strings_view(files@);
    proof {
        assert(zc.skip(1) =~= seq![
            ("build/zephyr/zephyr.bin"@, "bin"@),
            ("build/zephyr/zephyr.hex"@, "hex"@),
            ("build/app.elf"@, "elf"@),
        ]);
        assert(zc.skip(1).skip(1) =~= seq![
            ("build/zephyr/zephyr.hex"@, "hex"@),
            ("build/app.elf"@, "elf"@),
        ]);
        assert(zc.skip(1).skip(1).skip(1) =~= seq![("build/app.elf"@, "elf"@)]);
        assert(zc.skip(1).skip(1).skip(1).skip(1) =~= Seq::<(Seq<char>, Seq<char>)>::empty());
    }
    if files_contain(files, "build/zephyr/zephyr.elf") {
        return Some(("build/zephyr/zephyr.elf".to_owned(), "elf".to_owned()));
    }
    proof {
        assert(first_present_tagged(zc, fs) == first_present_tagged(zc.skip(1), fs));
    }
    if files_contain(files, "build/zephyr/zephyr.bin") {
        return Some(("build/zephyr/zephyr.bin".to_owned(), "bin".to_owned()));
    }
    proof {
        assert(first_present_tagged(zc.skip(1), fs) == first_present_tagged(
            zc.skip(1).skip(1),
            fs,
        ));
    }
    if files_contain(files, "build/zephyr/zephyr.hex") {
        return Some(("build/zephyr/zephyr.hex".to_owned(), "hex".to_owned()));
    }
    proof {
        assert(first_present_tagged(zc.skip(1).skip(1), fs) == first_present_tagged(
            zc.skip(1).skip(1).skip(1),
            fs,
        ));
    }
    if files_contain(files, "build/app.elf") {
        return Some(("build/app.elf".to_owned(), "elf".to_owned()));
    }
    proof {
        assert(first_present_tagged(zc.skip(1).skip(1).skip(1), fs) == first_present_tagged(
            zc.skip(1).skip(1).skip(1).skip(1),
            fs,
        ));
    }
    None
}

/// The candidate artifacts inside one PlatformIO environment directory:
/// `firmware` then `program`, each under `.hex`, `.bin`, `.elf`.
pub open spec fn pio_env_candidates(env: Seq<char>) -> Seq<(Seq<char>, Seq<char>)> {
    seq![
        (".pio/build/"@ + env + "/firmware.hex"@, "hex"@),
        (".pio/build/"@ + env + "/firmware.bin"@, "bin"@),
        (".pio/build/"@ + env + "/firmware.elf"@, "elf"@),
        (".pio/build/"@ + env + "/program.hex"@, "hex"@),
        (".pio/build/"@ + env + "/program.bin"@, "bin"@),
        (".pio/build/"@ + env + "/program.elf"@, "elf"@),
    ]
}

/// The first artifact over the discovered environment directories, in
/// directory order.
pub open spec fn pio_first(envs: Seq<Seq<char>>, files: Seq<Seq<char>>) -> Option<
    (Seq<char>, Seq<char>),
>
    decreases envs.len(),
{
    if envs.len() == 0 {
        None
    } else {
        match first_present_tagged(pio_env_candidates(envs[0]), files) {
            Some(x) => Some(x),
            None => pio_first(envs.skip(1), files),
        }
    }
}

#[verifier::loop_isolation(false)]
fn select_pio_env(env: &str, files: &Vec<String>) -> (r: Option<(String, String)>)
    ensures
        match r {
            Some(pf) => first_present_tagged(pio_env_candidates(env@), strings_view(files@))
                == Some((pf.0@, pf.1@)),
            None => first_present_tagged(pio_env_candidates(env@), strings_view(files@)) is None,
        },
{
    let ghost ec = pio_env_candidates(env@);
    proof {
        assert(ec.skip(1) =~= ec.subrange(1, 6));
        assert(ec.subrange(1, 6).skip(1) =~= ec.subrange(2, 6));
        assert(ec.subrange(2, 6).skip(1) =~= ec.subrange(3, 6));
        assert(ec.subrange(3, 6).skip(1) =~= ec.subrange(4, 6));
        assert(ec.subrange(4, 6).skip(1) =~= ec.subrange(5, 6));
        assert(ec.subrange(5, 6).skip(1) =~= Seq::<(Seq<char>, Seq<char>)>::empty());
    }
    let ghost fs = strings_view(files@);
    let p0 = crate::text::concat3(".pio/build/", env, "/firmware.hex");
    if files_contain(files, p0.as_str()) {
        return Some((p0, "hex".to_owned()));
    }
    proof {
        assert(first_present_tagged(ec, fs) == first_present_tagged(ec.subrange(1, 6), fs));
    }
    let p1 = crate::text::concat3(".pio/build/", env, "/firmware.bin");
    if files_contain(files, p1.as_str()) {
        return Some((p1, "bin".to_owned()));
    }
    proof {
        assert(first_present_tagged(ec.subrange(1, 6), fs) == first_present_tagged(
            ec.subrange(2, 6),
            fs,
        ));
    }
    let p2 = crate::text::concat3(".pio/build/", env, "/firmware.elf");
    if files_contain(files, p2.as_str()) {
        return Some((p2, "elf".to_owned()));
    }
    proof {
        assert(first_present_tagged(ec.subrange(2, 6), fs) == first_present_tagged(
            ec.subrange(3, 6),
            fs,
        ));
    }
    let p3 = crate::text::concat3(".pio/build/", env, "/program.hex");
    if files_contain(files, p3.as_str()) {
        return Some((p3, "hex".to_owned()));
    }
    proof {
        assert(first_present_tagged(ec.subrange(3, 6), fs) == first_present_tagged(
            ec.subrange(4, 6),
            fs,
        ));
    }
    let p4 = crate::text::concat3(".pio/build/", env, "/program.bin");
    if files_contain(files, p4.as_str()) {
        return Some((p4, "bin".to_owned()));
    }
    proof {
        assert(first_present_tagged(ec.subrange(4, 6), fs) == first_present_tagged(
            ec.subrange(5, 6),
            fs,
        ));
    }
    let p5 = crate::text::concat3(".pio/build/", env, "/program.elf");
    if files_contain(files, p5.as_str()) {
        return Some((p5, "elf".to_owned()));
    }
    proof {
        assert(first_present_tagged(ec.subrange(5, 6), fs) == first_present_tagged(
            ec.subrange(5, 6).skip(1),
            fs,
        ));
        assert(first_present_tagged(Seq::<(Seq<char>, Seq<char>)>::empty(), fs) is None);
    }
    None
}

/// Picks the PlatformIO artifact: per discovered environment directory, in
/// order, `firmware`/`program` under `.hex`/`.bin`/`.elf`.
#[verifier::loop_isolation(false)]
pub fn select_platformio_artifact(envs: &Vec<String>, files: &Vec<String>) -> (r: Option<
    (String, String),
>)
    ensures
        match r {
            Some(pf) => pio_first(strings_view(envs@), strings_view(files@)) == Some(
                (pf.0@, pf.1@),
            ),
            None => pio_first(strings_view(envs@), strings_view(files@)) is None,
        },
{
    let ghost es = strings_view(envs@);
    let ghost fs = strings_view(files@);
    proof {
        assert(es.skip(0) =~= es);
    }
    let mut i: usize = 0;
    while i < envs.len()
        invariant
            i <= envs@.len(),
            pio_first(es, fs) == pio_first(es.skip(i as int), fs),
        decreases envs@.len() - i,
    {
        proof {
            assert(es.skip(i as int)[0] == es[i as int]);
            assert(es[i as int] == envs@[i as int]@);
        }
        match select_pio_env(envs[i].as_str(), files) {
            Some(pf) => {
                return Some(pf);
            },
            None => {},
        }
        proof {
            assert(es.skip(i as int).skip(1) =~= es.skip(i + 1));
        }
        i += 1;
    }
    proof {
        assert(es.skip(envs@.len() as int) =~= Seq::<Seq<char>>::empty());
    }
    None
}

/// One file of a scanned output directory: its name and whether its
/// permission bits mark it executable.
pub struct FileMeta {
    pub name: String,
    pub executable: bool,
}

/// Mathematical value of a scanned directory.
pub open spec fn metas_view(s: Seq<FileMeta>) -> Seq<(Seq<char>, bool)> {
    s.map_values(|m: FileMeta| (m.name@, m.executable))
}

/// Index of the last `.` in a name, or `-1` when there is none.
pub open spec fn last_dot(name: Seq<char>) -> int
    decreases name.len(),
{
    if name.len() == 0 {
        -1
    } else if name.last() == '.' {
        name.len() - 1
    } else {
        last_dot(name.drop_last())
    }
}

/// The extension of a file name: what follows the last `.`, unless the
/// name has no dot or only a leading one.
pub open spec fn ext_of(name: Seq<char>) -> Option<Seq<char>> {
    let d = last_dot(name);
    if d <= 0 {
        None
    } else {
        Some(name.skip(d + 1))
    }
}

/// Extensions that mark a file as a script or text, never a firmware
/// binary.
pub open spec fn deny_listed(name: Seq<char>) -> bool {
    match ext_of(name) {
        Some(e) => e == "sh"@ || e == "py"@ || e == "txt"@ || e == "md"@ || e == "yml"@ || e
            == "yaml"@ || e == "json"@,
        None => false,
    }
}

/// Whether this file name carries a deny-listed extension.
#[verifier::loop_isolation(false)]
pub fn has_deny_listed_ext(name: &str) -> (r: bool)
    ensures
        r == deny_listed(name@),
{
    let n = name.unicode_len();
    proof {
        assert(name@.take(n as int) =~= name@);
    }
    let mut k: usize = n;
    while k > 0
        invariant
            k <= n,
            last_dot(name@) == last_dot(name@.take(k as int)),
        decreases k,
    {
        proof {
            assert(name@.take(k as int).last() == name@[k - 1]);
            assert(name@.take(k as int).drop_last() =~= name@.take(k - 1));
        }
        if name.get_char(k - 1) == '.' {
            if k - 1 == 0 {
                return false;
            }
            let suffix = name.substring_char(k, n);
            proof {
                assert(last_dot(name@) == k - 1);
                assert(suffix@ =~= name@.skip(k as int));
            }
            let deny = str_eq(suffix, "sh") || str_eq(suffix, "py") || str_eq(suffix, "txt")
                || str_eq(suffix, "md") || str_eq(suffix, "yml") || str_eq(suffix, "yaml")
                || str_eq(suffix, "json");
            return deny;
        }
        k -= 1;
    }
    proof {
        assert(name@.take(0) =~= Seq::<char>::empty());
    }
    false
}

/// The first entry whose permission bits mark it executable and whose
/// extension is not deny-listed.
pub open spec fn first_executable(ms: Seq<(Seq<char>, bool)>) -> Option<Seq<char>>
    decreases ms.len(),
{
    if ms.len() == 0 {
        None
    } else if ms[0].1 && !deny_listed(ms[0].0) {
        Some(ms[0].0)
    } else {
        first_executable(ms.skip(1))
    }
}

/// Scans a directory listing for the first executable, non-script file:
/// the fallback when no candidate path matched.
#[verifier::loop_isolation(false)]
pub fn select_executable(entries: &Vec<FileMeta>) -> (r: Option<String>)
    ensures
        match r {
            Some(p) => first_executable(metas_view(entries@)) == Some(p@),
            None => first_executable(metas_view(entries@)) is None,
        },
{
    let ghost ms = metas_view(entries@);
    proof {
        assert(ms.skip(0) =~= ms);
    }
    let mut i: usize = 0;
    while i < entries.len()
        invariant
            i <= entries@.len(),
            first_executable(ms) == first_executable(ms.skip(i as int)),
        decreases entries@.len() - i,
    {
        proof {
            assert(ms.skip(i as int)[0] == ms[i as int]);
            assert(ms[i as int] == (entries@[i as int].name@, entries@[i as int].executable));
        }
        if entries[i].executable && !has_deny_listed_ext(entries[i].name.as_str()) {
            return Some(entries[i].name.clone());
        }
        proof {
            assert(ms.skip(i as int).skip(1) =~= ms.skip(i + 1));
        }
        i += 1;
    }
    proof {
        assert(ms.skip(entries@.len() as int) =~= Seq::<(Seq<char>, bool)>::empty());
    }
    None
}

} // verus!
