use nabla_runner::applier::StrategyPlan;
use nabla_runner::applier::apply_config_patches;
use nabla_runner::applier::plan_strategy;
use nabla_runner::applier::toolchain_configure_arg;
use nabla_runner::model::BuildSystem;
use nabla_runner::strategy::BuildStrategy;
use nabla_runner::strategy::ConfigEntry;
use nabla_runner::text::replace_all;

#[test]
fn test_patch_platformio_config() {
    let config = "[env:esp32dev]\nplatform = espressif32\nboard = esp32dev\nframework = arduino\n";
    let patches = vec![ConfigEntry {
        key: "platform".to_string(),
        value: "espressif32@5.4.0".to_string(),
    }];
    let patched = apply_config_patches(config, &patches);
    assert!(patched.contains("espressif32@5.4.0"));
    assert_eq!(
        patched,
        "[env:esp32dev]\nplatform = espressif32@5.4.0 espressif32\nboard = esp32dev\nframework = arduino\n"
    );
}

#[test]
fn test_strategy_application_simulation() {
    let config = "platform = espressif32@99.99.99\nboard = esp32dev\n";
    let patches = vec![ConfigEntry {
        key: "platform".to_string(),
        value: "espressif32@5.4.0".to_string(),
    }];
    let patched = apply_config_patches(config, &patches);
    assert!(patched.contains("espressif32@5.4.0"));
}

#[test]
fn test_patch_leaves_unmatched_keys_alone() {
    let config = "board = uno\n";
    let patches = vec![ConfigEntry {
        key: "platform".to_string(),
        value: "atmelavr".to_string(),
    }];
    assert_eq!(apply_config_patches(config, &patches), "board = uno\n");
    let no_patches: Vec<ConfigEntry> = Vec::new();
    assert_eq!(apply_config_patches(config, &no_patches), "board = uno\n");
}

#[test]
fn test_replace_all_rewrites_every_occurrence() {
    assert_eq!(replace_all("a = 1\na = 2\n", "a =", "a = x"), "a = x 1\na = x 2\n");
    assert_eq!(replace_all("aaaa", "aa", "b"), "bb");
    assert_eq!(replace_all("nothing here", "absent", "x"), "nothing here");
}

#[test]
fn test_multi_environment_config_patching() {
    // A multi-environment configuration gets every `platform =` assignment
    // pinned, one per environment section.
    let config = "[platformio]\ndefault_envs = d32_pro_thread\n\n[env:d32_pro]\nplatform = espressif32@6.4.0\nboard = lolin_d32_pro\n\n[env:d32_pro_thread]\nplatform = espressif32@6.4.0\nboard = lolin_d32_pro\n\n[env:tbeam_thread]\nplatform = espressif32@6.4.0\nboard = ttgo-t-beam\n";
    let patches = vec![ConfigEntry {
        key: "platform".to_string(),
        value: "espressif32@5.4.0".to_string(),
    }];
    let patched = apply_config_patches(config, &patches);
    assert_eq!(patched.matches("espressif32@5.4.0").count(), 3);
    assert!(patched.contains("board = lolin_d32_pro"));
    assert!(patched.contains("board = ttgo-t-beam"));
}

#[test]
fn test_patch_cmake_config() {
    // An empty patch map on CMake means: clear the stale build cache.
    let plan = plan_strategy(BuildSystem::CMake, &BuildStrategy::ConfigPatch(Vec::new()));
    assert!(matches!(plan, StrategyPlan::ClearCmakeCache));
}

#[test]
fn test_version_downgrade_pins_platform() {
    let plan = plan_strategy(
        BuildSystem::PlatformIO,
        &BuildStrategy::VersionDowngrade("5.4.0".to_string()),
    );
    match plan {
        StrategyPlan::PatchIniFile(entries) => {
            assert_eq!(entries.len(), 1);
            assert_eq!(entries[0].key, "platform");
            assert_eq!(entries[0].value, "espressif32@5.4.0");
        }
        _ => panic!("a version downgrade becomes a platform pin"),
    }
}

#[test]
fn test_container_fallback_simulation() {
    // An architecture switch asks for a sandbox build, the declared
    // extension point that the runner reports as a strategy failure.
    let plan = plan_strategy(
        BuildSystem::PlatformIO,
        &BuildStrategy::ArchitectureSwitch("amd64".to_string()),
    );
    match plan {
        StrategyPlan::ContainerBuild(arch) => assert_eq!(arch, "amd64"),
        _ => panic!("an architecture switch asks for a container build"),
    }
}

#[test]
fn test_cmake_toolchain_fallback_plan() {
    let plan = plan_strategy(
        BuildSystem::CMake,
        &BuildStrategy::ToolchainFallback("clang".to_string()),
    );
    match plan {
        StrategyPlan::ConfigureWithToolchain(t) => assert_eq!(t, "clang"),
        _ => panic!("a toolchain fallback reconfigures CMake"),
    }
    assert_eq!(toolchain_configure_arg("clang"), "-DCMAKE_C_COMPILER=clang");
}

#[test]
fn test_cmake_dependency_plan() {
    let plan = plan_strategy(
        BuildSystem::CMake,
        &BuildStrategy::DependencyResolution(vec!["build-essential".to_string()]),
    );
    match plan {
        StrategyPlan::InstallPackages(deps) => assert_eq!(deps, vec!["build-essential"]),
        _ => panic!("dependency resolution installs packages"),
    }
}

#[test]
fn test_default_and_unhandled_strategies_are_no_ops() {
    assert!(matches!(
        plan_strategy(BuildSystem::PlatformIO, &BuildStrategy::Default),
        StrategyPlan::NoAction
    ));
    assert!(matches!(
        plan_strategy(BuildSystem::Makefile, &BuildStrategy::ToolchainFallback("gcc".to_string())),
        StrategyPlan::NoAction
    ));
    assert!(matches!(
        plan_strategy(BuildSystem::ZephyrWest, &BuildStrategy::ConfigPatch(Vec::new())),
        StrategyPlan::NoAction
    ));
}
