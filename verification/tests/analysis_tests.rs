use nabla_runner::model::BuildSystem;
use nabla_runner::orchestrator::BuildFixDatabase;
use nabla_runner::orchestrator::IntelligentBuilder;
use nabla_runner::orchestrator::PatternEntry;
use nabla_runner::orchestrator::SuccessEntry;
use nabla_runner::strategy::BuildConfig;
use nabla_runner::strategy::strategy_eq;
use nabla_runner::strategy::BuildStrategy;
use nabla_runner::strategy::ConfigEntry;

fn create_test_intelligent_builder() -> IntelligentBuilder {
    let fix_db = BuildFixDatabase { error_patterns: Vec::new(), successful_configs: Vec::new() };
    IntelligentBuilder::new(fix_db)
}

#[test]
fn test_intelligent_builder_creation() {
    let builder = create_test_intelligent_builder();
    // The builder starts with no recorded successes.
    assert!(builder.cached_strategy("any-fingerprint").is_none());
}

#[test]
fn test_platformio_error_analysis() {
    let builder = create_test_intelligent_builder();
    let error = "Could not install package framework-arduinoespressif32";
    let strategies = builder.analyze_error(error, BuildSystem::PlatformIO);
    assert!(strategies.is_some());
    let strategies = strategies.unwrap();
    assert!(!strategies.is_empty());
    assert!(strategies.iter().any(|s| matches!(s, BuildStrategy::VersionDowngrade(_))));
}

#[test]
fn test_cmake_error_analysis() {
    let builder = create_test_intelligent_builder();
    let error = "Could not find compiler for C language";
    let strategies = builder.analyze_error(error, BuildSystem::CMake);
    assert!(strategies.is_some());
    let strategies = strategies.unwrap();
    assert!(!strategies.is_empty());
    assert!(strategies.iter().any(|s| matches!(s, BuildStrategy::ToolchainFallback(_))));
}

#[test]
fn test_makefile_error_analysis() {
    let builder = create_test_intelligent_builder();
    let error = "make: gcc: No such file or directory";
    let strategies = builder.analyze_error(error, BuildSystem::Makefile);
    assert!(strategies.is_some());
    let strategies = strategies.unwrap();
    assert!(!strategies.is_empty());
    assert!(strategies.iter().any(|s| matches!(s, BuildStrategy::DependencyResolution(_))));
}

#[test]
fn test_zephyr_error_analysis() {
    let builder = create_test_intelligent_builder();
    let error = "west: command not found";
    let strategies = builder.analyze_error(error, BuildSystem::ZephyrWest);
    assert!(strategies.is_some());
    let strategies = strategies.unwrap();
    assert!(!strategies.is_empty());
    assert!(strategies.iter().any(|s| matches!(s, BuildStrategy::DependencyResolution(_))));
}

#[test]
fn test_stm32_error_analysis() {
    let builder = create_test_intelligent_builder();
    let error = "arm-none-eabi-gcc: command not found";
    let strategies = builder.analyze_error(error, BuildSystem::STM32CubeIDE);
    assert!(strategies.is_some());
    let strategies = strategies.unwrap();
    assert!(!strategies.is_empty());
    assert!(strategies.iter().any(|s| matches!(s, BuildStrategy::DependencyResolution(_))));
}

#[test]
fn test_scons_error_analysis() {
    let builder = create_test_intelligent_builder();
    let error = "scons: command not found";
    let strategies = builder.analyze_error(error, BuildSystem::SCons);
    assert!(strategies.is_some());
    let strategies = strategies.unwrap();
    assert!(!strategies.is_empty());
    assert!(strategies.iter().any(|s| matches!(s, BuildStrategy::DependencyResolution(_))));
}

#[test]
fn test_no_error_patterns_found() {
    let builder = create_test_intelligent_builder();
    let error = "Some unknown error that we have never seen before";
    let strategies = builder.analyze_error(error, BuildSystem::PlatformIO);
    // "no rule matched" is None, never an empty list.
    assert!(strategies.is_none());
}

#[test]
fn test_unknown_error_handling() {
    let builder = create_test_intelligent_builder();
    let unknown_error =
        "Some completely new error that we have never seen before and have no patterns for";
    let strategies = builder.analyze_error(unknown_error, BuildSystem::PlatformIO);
    assert!(strategies.is_none());
}

#[test]
fn test_cargo_has_no_rules() {
    let builder = create_test_intelligent_builder();
    let strategies = builder.analyze_error("anything at all", BuildSystem::Cargo);
    assert!(strategies.is_none());
}

#[test]
fn test_esp32_package_failure_proposals() {
    // The ESP32 package-install failure proposes a version downgrade, an
    // architecture switch, and a platform_packages pin, in that order.
    let builder = create_test_intelligent_builder();
    let error = "Could not install package framework-arduinoespressif32@3.20014.231204. \
                 Are you sure it exists?";
    let strategies = builder.analyze_error(error, BuildSystem::PlatformIO).unwrap();
    assert_eq!(strategies.len(), 3);
    match &strategies[0] {
        BuildStrategy::VersionDowngrade(v) => assert_eq!(v, "5.4.0"),
        other => panic!("expected a version downgrade, got {:?}", tag(other)),
    }
    match &strategies[1] {
        BuildStrategy::ArchitectureSwitch(a) => assert_eq!(a, "amd64"),
        other => panic!("expected an architecture switch, got {:?}", tag(other)),
    }
    match &strategies[2] {
        BuildStrategy::ConfigPatch(entries) => {
            assert_eq!(entries.len(), 1);
            assert_eq!(entries[0].key, "platform_packages");
            assert_eq!(entries[0].value, "framework-arduinoespressif32@3.20014.231204");
        }
        other => panic!("expected a config patch, got {:?}", tag(other)),
    }
}

fn tag(s: &BuildStrategy) -> &'static str {
    match s {
        BuildStrategy::Default => "Default",
        BuildStrategy::ToolchainFallback(_) => "ToolchainFallback",
        BuildStrategy::ConfigPatch(_) => "ConfigPatch",
        BuildStrategy::DependencyResolution(_) => "DependencyResolution",
        BuildStrategy::ArchitectureSwitch(_) => "ArchitectureSwitch",
        BuildStrategy::VersionDowngrade(_) => "VersionDowngrade",
    }
}

#[test]
fn test_cascading_failure_strategies() {
    let builder = create_test_intelligent_builder();
    let complex_error = "Could not install package framework-arduinoespressif32@3.20014.231204. \
                         Error: Package not found for platform espressif32@6.4.0 on linux_x86_64";
    let strategies = builder.analyze_error(complex_error, BuildSystem::PlatformIO);
    assert!(strategies.is_some());
    let strategies = strategies.unwrap();
    assert!(strategies.len() >= 2);
    assert!(strategies.iter().any(|s| matches!(s, BuildStrategy::VersionDowngrade(_))));
    assert!(strategies.iter().any(|s| matches!(s, BuildStrategy::ArchitectureSwitch(_))));
}

#[test]
fn test_error_pattern_priority() {
    let builder = create_test_intelligent_builder();
    let specific_error = "Could not install package framework-arduinoespressif32";
    let general_error = "Could not install package some-other-package";
    let specific_strategies = builder.analyze_error(specific_error, BuildSystem::PlatformIO);
    let general_strategies = builder.analyze_error(general_error, BuildSystem::PlatformIO);
    // The specific ESP32 pattern matches; the general install failure has
    // no rule of its own.
    assert!(specific_strategies.is_some());
    assert!(general_strategies.is_none());
}

#[test]
fn test_build_system_specific_error_analysis() {
    let builder = create_test_intelligent_builder();
    let compiler_error = "Could not find compiler for C language";
    let cmake_strategies = builder.analyze_error(compiler_error, BuildSystem::CMake);
    let makefile_strategies = builder.analyze_error(compiler_error, BuildSystem::Makefile);
    // The same text means something to CMake and nothing to Make.
    assert!(cmake_strategies.is_some());
    assert!(makefile_strategies.is_none());
}

#[test]
fn test_analysis_is_pure() {
    // Identical text and system give identical results, builder state and
    // call order notwithstanding.
    let builder_a = create_test_intelligent_builder();
    let mut builder_b = create_test_intelligent_builder();
    builder_b.record_success("fp", BuildStrategy::ToolchainFallback("gcc".to_string()));
    let error = "west: command not found";
    let first = builder_a.analyze_error(error, BuildSystem::ZephyrWest).unwrap();
    let second = builder_b.analyze_error(error, BuildSystem::ZephyrWest).unwrap();
    let third = builder_a.analyze_error(error, BuildSystem::ZephyrWest).unwrap();
    assert_eq!(first.len(), second.len());
    assert_eq!(first.len(), third.len());
    for i in 0..first.len() {
        assert!(nabla_runner::strategy::strategy_eq(&first[i], &second[i]));
        assert!(nabla_runner::strategy::strategy_eq(&first[i], &third[i]));
    }
}

#[test]
fn test_build_strategy_variants() {
    let strategies = vec![
        BuildStrategy::Default,
        BuildStrategy::ToolchainFallback("gcc".to_string()),
        BuildStrategy::ConfigPatch(vec![ConfigEntry {
            key: "key".to_string(),
            value: "value".to_string(),
        }]),
        BuildStrategy::DependencyResolution(vec!["package".to_string()]),
        BuildStrategy::ArchitectureSwitch("amd64".to_string()),
        BuildStrategy::VersionDowngrade("1.0.0".to_string()),
    ];
    assert_eq!(strategies.len(), 6);
}

#[test]
fn test_strategy_equality() {
    let a = BuildStrategy::ToolchainFallback("gcc".to_string());
    let b = BuildStrategy::ToolchainFallback("gcc".to_string());
    let c = BuildStrategy::ToolchainFallback("clang".to_string());
    assert!(strategy_eq(&a, &b));
    assert!(!strategy_eq(&a, &c));
    assert!(!strategy_eq(&a, &BuildStrategy::Default));
    let p1 = BuildStrategy::ConfigPatch(vec![ConfigEntry {
        key: "board".to_string(),
        value: "qemu_x86".to_string(),
    }]);
    let p2 = BuildStrategy::ConfigPatch(vec![ConfigEntry {
        key: "board".to_string(),
        value: "qemu_x86".to_string(),
    }]);
    let p3 = BuildStrategy::ConfigPatch(Vec::new());
    assert!(strategy_eq(&p1, &p2));
    assert!(!strategy_eq(&p1, &p3));
}

#[test]
fn test_build_config_creation() {
    let config = BuildConfig {
        toolchain: Some("gcc".to_string()),
        environment: vec![ConfigEntry { key: "CC".to_string(), value: "gcc".to_string() }],
        build_flags: vec!["-O2".to_string(), "-Wall".to_string()],
    };
    assert!(config.toolchain.is_some());
    assert!(!config.environment.is_empty());
    assert!(!config.build_flags.is_empty());
}

#[test]
fn test_build_fix_database_creation() {
    let db = BuildFixDatabase {
        error_patterns: vec![PatternEntry {
            pattern: "test_error".to_string(),
            strategies: vec![BuildStrategy::Default],
        }],
        successful_configs: vec![SuccessEntry {
            fingerprint: "test_config".to_string(),
            strategy: BuildStrategy::Default,
        }],
    };
    assert!(!db.error_patterns.is_empty());
    assert!(!db.successful_configs.is_empty());
}
