//! Error analysis: pure keyword rules that map a build system and its raw
//! error text to candidate remediation strategies.

use vstd::prelude::*;
use crate::model::BuildSystem;
use crate::strategy::BuildStrategy;
use crate::strategy::ConfigEntry;
use crate::strategy::StrategyView;
use crate::strategy::entries_view;
use crate::strategy::strategies_view;
use crate::strategy::strings_view;
use crate::text::contains_seq;
use crate::text::contains_sub;

verus! {

/// The strategies proposed when PlatformIO cannot install the ESP32
/// Arduino framework package.
pub open spec fn pio_package_fixes() -> Seq<StrategyView> {
    seq![
        StrategyView::VersionDowngrade("5.4.0"@),
        StrategyView::ArchitectureSwitch("amd64"@),
        StrategyView::ConfigPatch(
            seq![("platform_packages"@, "framework-arduinoespressif32@3.20014.231204"@)],
        ),
    ]
}

/// The rule set for PlatformIO error text.
pub open spec fn platformio_rules(e: Seq<char>) -> Seq<StrategyView> {
    (if contains_seq(e, "Could not install package"@) && contains_seq(
        e,
        "framework-arduinoespressif32"@,
    ) {
        pio_package_fixes()
    } else {
        Seq::empty()
    }) + (if contains_seq(e, "linux_x86_64"@) {
        seq![StrategyView::ArchitectureSwitch("arm64"@)]
    } else {
        Seq::empty()
    })
}

/// Candidate strategies for a PlatformIO failure, or `None` when no rule
/// fires.
pub fn analyze_platformio_error(error: &str) -> (r: Option<Vec<BuildStrategy>>)
    ensures
        analysis_view(r) == nonempty_or_none(platformio_rules(error@)),
{
    let mut strategies: Vec<BuildStrategy> = Vec::new();
    let rule1 = contains_sub(error, "Could not install package") && contains_sub(
        error,
        "framework-arduinoespressif32",
    );
    if rule1 {
        strategies.push(BuildStrategy::VersionDowngrade("5.4.0".to_owned()));
        strategies.push(BuildStrategy::ArchitectureSwitch("amd64".to_owned()));
        let patch = ConfigEntry {
            key: "platform_packages".to_owned(),
            value: "framework-arduinoespressif32@3.20014.231204".to_owned(),
        };
        let mut patches: Vec<ConfigEntry> = Vec::new();
        patches.push(patch);
        proof {
            assert(entries_view(patches@) =~= seq![
                ("platform_packages"@, "framework-arduinoespressif32@3.20014.231204"@),
            ]);
        }
        strategies.push(BuildStrategy::ConfigPatch(patches));
        proof {
            assert(strategies_view(strategies@) =~= pio_package_fixes());
        }
    }
    let rule2 = contains_sub(error, "linux_x86_64");
    if rule2 {
        strategies.push(BuildStrategy::ArchitectureSwitch("arm64".to_owned()));
    }
    proof {
        assert(strategies_view(strategies@) =~= platformio_rules(error@));
    }
    finish_analysis(strategies)
}

/// The rule set for CMake error text.
pub open spec fn cmake_rules(e: Seq<char>) -> Seq<StrategyView> {
    (if contains_seq(e, "Could not find"@) && contains_seq(e, "compiler"@) {
        seq![
            StrategyView::ToolchainFallback("gcc"@),
            StrategyView::ToolchainFallback("clang"@),
        ]
    } else {
        Seq::empty()
    }) + (if contains_seq(e, "CMAKE_TOOLCHAIN_FILE"@) {
        seq![
            StrategyView::ConfigPatch(
                seq![("CMAKE_TOOLCHAIN_FILE"@, "/usr/local/share/cmake/toolchain.cmake"@)],
            ),
        ]
    } else {
        Seq::empty()
    }) + (if contains_seq(e, "No such file or directory"@) && contains_seq(e, "CMakeCache.txt"@) {
        seq![StrategyView::ConfigPatch(Seq::empty())]
    } else {
        Seq::empty()
    })
}

/// Candidate strategies for a CMake failure; an empty configuration patch
/// signals a stale-cache clean.
pub fn analyze_cmake_error(error: &str) -> (r: Option<Vec<BuildStrategy>>)
    ensures
        analysis_view(r) == nonempty_or_none(cmake_rules(error@)),
{
    let mut strategies: Vec<BuildStrategy> = Vec::new();
    let rule1 = contains_sub(error, "Could not find") && contains_sub(error, "compiler");
    if rule1 {
        strategies.push(BuildStrategy::ToolchainFallback("gcc".to_owned()));
        strategies.push(BuildStrategy::ToolchainFallback("clang".to_owned()));
    }
    let ghost after1 = strategies_view(strategies@);
    let rule2 = contains_sub(error, "CMAKE_TOOLCHAIN_FILE");
    if rule2 {
        let mut patches: Vec<ConfigEntry> = Vec::new();
        patches.push(
            ConfigEntry {
                key: "CMAKE_TOOLCHAIN_FILE".to_owned(),
                value: "/usr/local/share/cmake/toolchain.cmake".to_owned(),
            },
        );
        proof {
            assert(entries_view(patches@) =~= seq![
                ("CMAKE_TOOLCHAIN_FILE"@, "/usr/local/share/cmake/toolchain.cmake"@),
            ]);
        }
        strategies.push(BuildStrategy::ConfigPatch(patches));
    }
    let rule3 = contains_sub(error, "No such file or directory") && contains_sub(
        error,
        "CMakeCache.txt",
    );
    if rule3 {
        let patches: Vec<ConfigEntry> = Vec::new();
        proof {
            assert(entries_view(patches@) =~= Seq::<(Seq<char>, Seq<char>)>::empty());
        }
        strategies.push(BuildStrategy::ConfigPatch(patches));
    }
    proof {
        assert(strategies_view(strategies@) =~= cmake_rules(error@));
    }
    finish_analysis(strategies)
}

/// The rule set for Makefile error text.
pub open spec fn makefile_rules(e: Seq<char>) -> Seq<StrategyView> {
    (if contains_seq(e, "No such file or directory"@) && (contains_seq(e, "gcc"@) || contains_seq(
        e,
        "make"@,
    )) {
        seq![
            StrategyView::DependencyResolution(seq!["build-essential"@, "gcc-arm-none-eabi"@]),
        ]
    } else {
        Seq::empty()
    }) + (if contains_seq(e, "Permission denied"@) {
        seq![StrategyView::ArchitectureSwitch("privileged"@)]
    } else {
        Seq::empty()
    })
}

/// Candidate strategies for a Makefile failure.
pub fn analyze_makefile_error(error: &str) -> (r: Option<Vec<BuildStrategy>>)
    ensures
        analysis_view(r) == nonempty_or_none(makefile_rules(error@)),
{
    let mut strategies: Vec<BuildStrategy> = Vec::new();
    let rule1 = contains_sub(error, "No such file or directory") && (contains_sub(error, "gcc")
        || contains_sub(error, "make"));
    if rule1 {
        let mut deps: Vec<String> = Vec::new();
        deps.push("build-essential".to_owned());
        deps.push("gcc-arm-none-eabi".to_owned());
        proof {
            assert(strings_view(deps@) =~= seq!["build-essential"@, "gcc-arm-none-eabi"@]);
        }
        strategies.push(BuildStrategy::DependencyResolution(deps));
    }
    let rule2 = contains_sub(error, "Permission denied");
    if rule2 {
        strategies.push(BuildStrategy::ArchitectureSwitch("privileged".to_owned()));
    }
    proof {
        assert(strategies_view(strategies@) =~= makefile_rules(error@));
    }
    finish_analysis(strategies)
}

/// The rule set for Zephyr/west error text.
pub open spec fn zephyr_rules(e: Seq<char>) -> Seq<StrategyView> {
    (if contains_seq(e, "west"@) && contains_seq(e, "not found"@) {
        seq![StrategyView::DependencyResolution(seq!["west"@])]
    } else {
        Seq::empty()
    }) + (if contains_seq(e, "ZEPHYR_BASE"@) {
        seq![StrategyView::ConfigPatch(seq![("ZEPHYR_BASE"@, "/opt/zephyr"@)])]
    } else {
        Seq::empty()
    }) + (if contains_seq(e, "board"@) && contains_seq(e, "not supported"@) {
        seq![StrategyView::ConfigPatch(seq![("board"@, "qemu_x86"@)])]
    } else {
        Seq::empty()
    })
}

/// Candidate strategies for a Zephyr/west failure.
pub fn analyze_zephyr_error(error: &str) -> (r: Option<Vec<BuildStrategy>>)
    ensures
        analysis_view(r) == nonempty_or_none(zephyr_rules(error@)),
{
    let mut strategies: Vec<BuildStrategy> = Vec::new();
    let rule1 = contains_sub(error, "west") && contains_sub(error, "not found");
    if rule1 {
        let mut deps: Vec<String> = Vec::new();
        deps.push("west".to_owned());
        proof {
            assert(strings_view(deps@) =~= seq!["west"@]);
        }
        strategies.push(BuildStrategy::DependencyResolution(deps));
    }
    let rule2 = contains_sub(error, "ZEPHYR_BASE");
    if rule2 {
        let mut patches: Vec<ConfigEntry> = Vec::new();
        patches.push(ConfigEntry { key: "ZEPHYR_BASE".to_owned(), value: "/opt/zephyr".to_owned() });
        proof {
            assert(entries_view(patches@) =~= seq![("ZEPHYR_BASE"@, "/opt/zephyr"@)]);
        }
        strategies.push(BuildStrategy::ConfigPatch(patches));
    }
    let rule3 = contains_sub(error, "board") && contains_sub(error, "not supported");
    if rule3 {
        let mut patches: Vec<ConfigEntry> = Vec::new();
        patches.push(ConfigEntry { key: "board".to_owned(), value: "qemu_x86".to_owned() });
        proof {
            assert(entries_view(patches@) =~= seq![("board"@, "qemu_x86"@)]);
        }
        strategies.push(BuildStrategy::ConfigPatch(patches));
    }
    proof {
        assert(strategies_view(strategies@) =~= zephyr_rules(error@));
    }
    finish_analysis(strategies)
}

/// The rule set for STM32CubeIDE error text.
pub open spec fn stm32_rules(e: Seq<char>) -> Seq<StrategyView> {
    (if contains_seq(e, "arm-none-eabi-gcc"@) {
        seq![StrategyView::DependencyResolution(seq!["gcc-arm-none-eabi"@])]
    } else {
        Seq::empty()
    }) + (if contains_seq(e, "STM32Make.make"@) {
        seq![StrategyView::ToolchainFallback("Makefile"@)]
    } else {
        Seq::empty()
    })
}

/// Candidate strategies for an STM32CubeIDE failure.
pub fn analyze_stm32_error(error: &str) -> (r: Option<Vec<BuildStrategy>>)
    ensures
        analysis_view(r) == nonempty_or_none(stm32_rules(error@)),
{
    let mut strategies: Vec<BuildStrategy> = Vec::new();
    let rule1 = contains_sub(error, "arm-none-eabi-gcc");
    if rule1 {
        let mut deps: Vec<String> = Vec::new();
        deps.push("gcc-arm-none-eabi".to_owned());
        proof {
            assert(strings_view(deps@) =~= seq!["gcc-arm-none-eabi"@]);
        }
        strategies.push(BuildStrategy::DependencyResolution(deps));
    }
    let rule2 = contains_sub(error, "STM32Make.make");
    if rule2 {
        strategies.push(BuildStrategy::ToolchainFallback("Makefile".to_owned()));
    }
    proof {
        assert(strategies_view(strategies@) =~= stm32_rules(error@));
    }
    finish_analysis(strategies)
}

/// The rule set for SCons error text.
pub open spec fn scons_rules(e: Seq<char>) -> Seq<StrategyView> {
    (if contains_seq(e, "scons"@) && contains_seq(e, "not found"@) {
        seq![StrategyView::DependencyResolution(seq!["scons"@])]
    } else {
        Seq::empty()
    }) + (if contains_seq(e, "python"@) {
        seq![StrategyView::ToolchainFallback("python3"@)]
    } else {
        Seq::empty()
    })
}

/// Candidate strategies for an SCons failure.
pub fn analyze_scons_error(error: &str) -> (r: Option<Vec<BuildStrategy>>)
    ensures
        analysis_view(r) == nonempty_or_none(scons_rules(error@)),
{
    let mut strategies: Vec<BuildStrategy> = Vec::new();
    let rule1 = contains_sub(error, "scons") && contains_sub(error, "not found");
    if rule1 {
        let mut deps: Vec<String> = Vec::new();
        deps.push("scons".to_owned());
        proof {
            assert(strings_view(deps@) =~= seq!["scons"@]);
        }
        strategies.push(BuildStrategy::DependencyResolution(deps));
    }
    let rule2 = contains_sub(error, "python");
    if rule2 {
        strategies.push(BuildStrategy::ToolchainFallback("python3".to_owned()));
    }
    proof {
        assert(strategies_view(strategies@) =~= scons_rules(error@));
    }
    finish_analysis(strategies)
}

/// The per-system rule set; a native-toolchain project has no rules.
pub open spec fn analysis_rules(e: Seq<char>, system: BuildSystem) -> Seq<StrategyView> {
    match system {
        BuildSystem::Cargo => Seq::empty(),
        BuildSystem::Makefile => makefile_rules(e),
        BuildSystem::CMake => cmake_rules(e),
        BuildSystem::PlatformIO => platformio_rules(e),
        BuildSystem::ZephyrWest => zephyr_rules(e),
        BuildSystem::STM32CubeIDE => stm32_rules(e),
        BuildSystem::SCons => scons_rules(e),
    }
}

/// The analysis contract: the per-system rules, with an empty result
/// reported as `None` to distinguish "no rule matched" from an empty plan.
pub open spec fn analyze_spec(e: Seq<char>, system: BuildSystem) -> Option<Seq<StrategyView>> {
    nonempty_or_none(analysis_rules(e, system))
}

/// Every strategy any rule of a build system can propose, together with
/// `Default`: the finite universe the retry loop draws from.
pub open spec fn strategy_universe(system: BuildSystem) -> Seq<StrategyView> {
    match system {
        BuildSystem::Cargo => seq![StrategyView::Default],
        BuildSystem::Makefile => seq![
            StrategyView::Default,
            StrategyView::DependencyResolution(seq!["build-essential"@, "gcc-arm-none-eabi"@]),
            StrategyView::ArchitectureSwitch("privileged"@),
        ],
        BuildSystem::CMake => seq![
            StrategyView::Default,
            StrategyView::ToolchainFallback("gcc"@),
            StrategyView::ToolchainFallback("clang"@),
            StrategyView::ConfigPatch(
                seq![("CMAKE_TOOLCHAIN_FILE"@, "/usr/local/share/cmake/toolchain.cmake"@)],
            ),
            StrategyView::ConfigPatch(Seq::empty()),
        ],
        BuildSystem::PlatformIO => seq![
            StrategyView::Default,
            StrategyView::VersionDowngrade("5.4.0"@),
            StrategyView::ArchitectureSwitch("amd64"@),
            StrategyView::ConfigPatch(
                seq![("platform_packages"@, "framework-arduinoespressif32@3.20014.231204"@)],
            ),
            StrategyView::ArchitectureSwitch("arm64"@),
        ],
        BuildSystem::ZephyrWest => seq![
            StrategyView::Default,
            StrategyView::DependencyResolution(seq!["west"@]),
            StrategyView::ConfigPatch(seq![("ZEPHYR_BASE"@, "/opt/zephyr"@)]),
            StrategyView::ConfigPatch(seq![("board"@, "qemu_x86"@)]),
        ],
        BuildSystem::STM32CubeIDE => seq![
            StrategyView::Default,
            StrategyView::DependencyResolution(seq!["gcc-arm-none-eabi"@]),
            StrategyView::ToolchainFallback("Makefile"@),
        ],
        BuildSystem::SCons => seq![
            StrategyView::Default,
            StrategyView::DependencyResolution(seq!["scons"@]),
            StrategyView::ToolchainFallback("python3"@),
        ],
    }
}

/// `Default` is always in the universe.
pub proof fn lemma_default_in_universe(system: BuildSystem)
    ensures
        strategy_universe(system).contains(StrategyView::Default),
{
    assert(strategy_universe(system)[0] == StrategyView::Default);
}

/// Each build system's universe is small: at most five strategies.
pub proof fn lemma_universe_len(system: BuildSystem)
    ensures
        1 <= strategy_universe(system).len() <= 5,
{
}

/// Every strategy the analysis can propose lies in the finite universe of
/// its build system.
pub proof fn lemma_analysis_in_universe(e: Seq<char>, system: BuildSystem)
    ensures
        forall|i: int|
            0 <= i < analysis_rules(e, system).len() ==> strategy_universe(system).contains(
                #[trigger] analysis_rules(e, system)[i],
            ),
{
    let r = analysis_rules(e, system);
    let u = strategy_universe(system);
    assert forall|i: int| 0 <= i < r.len() implies u.contains(r[i]) by {
        match system {
            BuildSystem::Cargo => {},
            BuildSystem::Makefile => {
                if r[i] == u[1] {
                    assert(u.contains(r[i]));
                } else {
                    assert(r[i] == u[2]);
                    assert(u.contains(r[i]));
                }
            },
            BuildSystem::CMake => {
                if r[i] == u[1] || r[i] == u[2] || r[i] == u[3] {
                    assert(u.contains(r[i]));
                } else {
                    assert(r[i] == u[4]);
                    assert(u.contains(r[i]));
                }
            },
            BuildSystem::PlatformIO => {
                if r[i] == u[1] || r[i] == u[2] || r[i] == u[3] {
                    assert(u.contains(r[i]));
                } else {
                    assert(r[i] == u[4]);
                    assert(u.contains(r[i]));
                }
            },
            BuildSystem::ZephyrWest => {
                if r[i] == u[1] || r[i] == u[2] {
                    assert(u.contains(r[i]));
                } else {
                    assert(r[i] == u[3]);
                    assert(u.contains(r[i]));
                }
            },
            BuildSystem::STM32CubeIDE => {
                if r[i] == u[1] {
                    assert(u.contains(r[i]));
                } else {
                    assert(r[i] == u[2]);
                    assert(u.contains(r[i]));
                }
            },
            BuildSystem::SCons => {
                if r[i] == u[1] {
                    assert(u.contains(r[i]));
                } else {
                    assert(r[i] == u[2]);
                    assert(u.contains(r[i]));
                }
            },
        }
    }
}

/// Analysis is pure: identical error text and build system always yield an
/// identical result, independent of any other state or call order.
pub proof fn lemma_analyze_pure(e1: Seq<char>, e2: Seq<char>, s1: BuildSystem, s2: BuildSystem)
    requires
        e1 == e2,
        s1 == s2,
    ensures
        analyze_spec(e1, s1) == analyze_spec(e2, s2),
{
}

/// Mathematical value of an analysis result.
pub open spec fn analysis_view(r: Option<Vec<BuildStrategy>>) -> Option<Seq<StrategyView>> {
    match r {
        Some(v) => Some(strategies_view(v@)),
        None => None,
    }
}

/// An empty strategy list means no rule fired, reported as `None`.
pub open spec fn nonempty_or_none(s: Seq<StrategyView>) -> Option<Seq<StrategyView>> {
    if s.len() == 0 {
        None
    } else {
        Some(s)
    }
}

fn finish_analysis(strategies: Vec<BuildStrategy>) -> (r: Option<Vec<BuildStrategy>>)
    ensures
        analysis_view(r) == nonempty_or_none(strategies_view(strategies@)),
{
    if strategies.len() == 0 {
        None
    } else {
        Some(strategies)
    }
}

} // verus!
