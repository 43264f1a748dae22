//! Strategy application: maps a remediation strategy to the concrete action
//! the runner must take before retrying, and rewrites configuration text.

use vstd::prelude::*;
use crate::model::BuildSystem;
use crate::strategy::BuildStrategy;
use crate::strategy::ConfigEntry;
use crate::strategy::StrategyView;
use crate::strategy::entries_view;
use crate::strategy::strings_view;
use crate::text::concat2;
use crate::text::concat3;
use crate::text::replace_all;
use crate::text::replace_all_spec;

verus! {

/// The concrete action a strategy asks for, given the build system.
pub enum StrategyPlan {
    /// Run the native build command unmodified.
    NoAction,
    /// Rewrite these keys in `platformio.ini` before building.
    PatchIniFile(Vec<ConfigEntry>),
    /// Delete the stale `CMakeCache.txt` before building.
    ClearCmakeCache,
    /// Re-run the CMake configure step forcing this compiler.
    ConfigureWithToolchain(String),
    /// Install these packages through the host package manager; a failed
    /// install aborts the whole strategy.
    InstallPackages(Vec<String>),
    /// Build inside an alternate-architecture sandbox: a declared extension
    /// point that always reports a strategy-application failure.
    ContainerBuild(String),
}

/// Mathematical value of a plan.
pub enum PlanView {
    NoAction,
    PatchIniFile(Seq<(Seq<char>, Seq<char>)>),
    ClearCmakeCache,
    ConfigureWithToolchain(Seq<char>),
    InstallPackages(Seq<Seq<char>>),
    ContainerBuild(Seq<char>),
}

impl View for StrategyPlan {
    type V = PlanView;

    open spec fn view(&self) -> PlanView {
        match self {
            StrategyPlan::NoAction => PlanView::NoAction,
            StrategyPlan::PatchIniFile(p) => PlanView::PatchIniFile(entries_view(p@)),
            StrategyPlan::ClearCmakeCache => PlanView::ClearCmakeCache,
            StrategyPlan::ConfigureWithToolchain(t) => PlanView::ConfigureWithToolchain(t@),
            StrategyPlan::InstallPackages(d) => PlanView::InstallPackages(strings_view(d@)),
            StrategyPlan::ContainerBuild(a) => PlanView::ContainerBuild(a@),
        }
    }
}

/// What each strategy means for each build system. PlatformIO takes
/// configuration patches, version downgrades (pinned through its platform
/// key) and sandbox switches; CMake takes toolchain fallbacks, cache
/// cleaning and dependency installs; the remaining systems run their
/// native command unmodified.
pub open spec fn plan_spec(system: BuildSystem, s: StrategyView) -> PlanView {
    match system {
        BuildSystem::PlatformIO => match s {
            StrategyView::ConfigPatch(p) => PlanView::PatchIniFile(p),
            StrategyView::VersionDowngrade(v) => PlanView::PatchIniFile(
                seq![("platform"@, "espressif32@"@ + v)],
            ),
            StrategyView::ArchitectureSwitch(a) => PlanView::ContainerBuild(a),
            _ => PlanView::NoAction,
        },
        BuildSystem::CMake => match s {
            StrategyView::ToolchainFallback(t) => PlanView::ConfigureWithToolchain(t),
            StrategyView::ConfigPatch(_) => PlanView::ClearCmakeCache,
            StrategyView::DependencyResolution(d) => PlanView::InstallPackages(d),
            _ => PlanView::NoAction,
        },
        _ => PlanView::NoAction,
    }
}

/// Turns a strategy into the plan the runner executes before retrying.
pub fn plan_strategy(system: BuildSystem, strategy: &BuildStrategy) -> (p: StrategyPlan)
    ensures
        p@ == plan_spec(system, strategy@),
{
    match system {
        BuildSystem::PlatformIO => match strategy {
            BuildStrategy::ConfigPatch(patches) => StrategyPlan::PatchIniFile(
                crate::strategy::clone_config_entries(patches),
            ),
            BuildStrategy::VersionDowngrade(v) => {
                let mut patches: Vec<ConfigEntry> = Vec::new();
                patches.push(
                    ConfigEntry {
                        key: "platform".to_owned(),
                        value: concat2("espressif32@", v.as_str()),
                    },
                );
                proof {
                    assert(entries_view(patches@) =~= seq![("platform"@, "espressif32@"@ + v@)]);
                }
                StrategyPlan::PatchIniFile(patches)
            },
            BuildStrategy::ArchitectureSwitch(a) => StrategyPlan::ContainerBuild(a.clone()),
            _ => StrategyPlan::NoAction,
        },
        BuildSystem::CMake => match strategy {
            BuildStrategy::ToolchainFallback(t) => StrategyPlan::ConfigureWithToolchain(t.clone()),
            BuildStrategy::ConfigPatch(_) => StrategyPlan::ClearCmakeCache,
            BuildStrategy::DependencyResolution(d) => StrategyPlan::InstallPackages(
                crate::strategy::clone_string_vec(d),
            ),
            _ => StrategyPlan::NoAction,
        },
        _ => StrategyPlan::NoAction,
    }
}

/// The CMake configure argument that forces a compiler.
pub fn toolchain_configure_arg(toolchain: &str) -> (r: String)
    ensures
        r@ == "-DCMAKE_C_COMPILER="@ + toolchain@,
{
    concat2("-DCMAKE_C_COMPILER=", toolchain)
}

/// One patch applied to configuration text: every `<key> =` assignment is
/// rewritten to `<key> = <value>`.
pub open spec fn apply_one_patch(
    content: Seq<char>,
    key: Seq<char>,
    value: Seq<char>,
) -> Seq<char> {
    replace_all_spec(content, key + " ="@, key + " = "@ + value)
}

/// All patches applied in order.
pub open spec fn apply_patches_spec(
    content: Seq<char>,
    patches: Seq<(Seq<char>, Seq<char>)>,
) -> Seq<char>
    decreases patches.len(),
{
    if patches.len() == 0 {
        content
    } else {
        apply_patches_spec(
            apply_one_patch(content, patches[0].0, patches[0].1),
            patches.skip(1),
        )
    }
}

/// Rewrites configuration text: for each patch in order, every `<key> =`
/// line is rewritten to pin `<key> = <value>`.
#[verifier::loop_isolation(false)]
pub fn apply_config_patches(content: &str, patches: &Vec<ConfigEntry>) -> (r: String)
    ensures
        r@ == apply_patches_spec(content@, entries_view(patches@)),
{
    let ghost ps = entries_view(patches@);
    proof {
        assert(ps.skip(0) =~= ps);
    }
    let mut cur = content.to_owned();
    let mut i: usize = 0;
    while i < patches.len()
        invariant
            i <= patches@.len(),
            apply_patches_spec(content@, ps) == apply_patches_spec(cur@, ps.skip(i as int)),
        decreases patches@.len() - i,
    {
        proof {
            assert(ps.skip(i as int)[0] == ps[i as int]);
            assert(ps[i as int] == (patches@[i as int].key@, patches@[i as int].value@));
            assert(ps.skip(i as int).skip(1) =~= ps.skip(i + 1));
            reveal_strlit(" =");
        }
        let pat = concat2(patches[i].key.as_str(), " =");
        let rep = concat3(patches[i].key.as_str(), " = ", patches[i].value.as_str());
        cur = replace_all(cur.as_str(), pat.as_str(), rep.as_str());
        i += 1;
    }
    proof {
        assert(ps.skip(patches@.len() as int) =~= Seq::<(Seq<char>, Seq<char>)>::empty());
    }
    cur
}

} // verus!
