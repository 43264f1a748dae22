use nabla_runner::model::BuildResult;
use nabla_runner::model::BuildSystem;
use nabla_runner::orchestrator::AttemptOutcome;
use nabla_runner::orchestrator::BuildFixDatabase;
use nabla_runner::orchestrator::IntelligentBuilder;
use nabla_runner::orchestrator::Orchestrator;
use nabla_runner::strategy::BuildStrategy;

fn empty_builder() -> IntelligentBuilder {
    IntelligentBuilder::new(BuildFixDatabase {
        error_patterns: Vec::new(),
        successful_configs: Vec::new(),
    })
}

fn ok_result(system: BuildSystem) -> BuildResult {
    BuildResult {
        success: true,
        output_path: Some("build/firmware.elf".to_string()),
        target_format: Some("elf".to_string()),
        error_output: None,
        build_system: system,
        duration_ms: 1234,
    }
}

#[test]
fn test_default_success_on_first_try() {
    // A session whose Default attempt succeeds returns the successful
    // result after exactly one attempt, without any non-Default strategy.
    let mut session = Orchestrator::new(BuildSystem::CMake);
    let first = session.next_strategy().expect("a first attempt is owed");
    assert!(matches!(first, BuildStrategy::Default));
    session.record_outcome(AttemptOutcome::Success(ok_result(BuildSystem::CMake)));
    assert!(session.is_finished());
    let result = session.succeeded().expect("the session succeeded");
    assert!(result.success);
    assert_eq!(result.build_system, BuildSystem::CMake);
    // No further attempt is owed and nothing else was queued.
    assert!(session.next_strategy().is_none());
}

#[test]
fn test_unrecognized_failure_is_terminal() {
    // A failure no rule recognizes exhausts the queue after the single
    // Default attempt.
    let mut session = Orchestrator::new(BuildSystem::Makefile);
    assert!(!session.is_finished());
    session.record_outcome(AttemptOutcome::Failure("weird unrecognizable noise".to_string()));
    assert!(session.is_finished());
    assert!(session.succeeded().is_none());
    assert_eq!(session.attempts_made(), 1);
    assert_eq!(session.last_error_text().unwrap(), "weird unrecognizable noise");
}

#[test]
fn test_failure_queues_analysis_strategies() {
    // A recognized CMake failure queues the two toolchain fallbacks, which
    // are then attempted in order.
    let mut session = Orchestrator::new(BuildSystem::CMake);
    session.record_outcome(AttemptOutcome::Failure(
        "Could not find compiler for C language".to_string(),
    ));
    assert!(!session.is_finished());
    {
        let second = session.next_strategy().unwrap();
        match second {
            BuildStrategy::ToolchainFallback(t) => assert_eq!(t, "gcc"),
            _ => panic!("expected the gcc toolchain fallback"),
        }
    }
    session.record_outcome(AttemptOutcome::Failure(
        "Could not find compiler for C language".to_string(),
    ));
    {
        let third = session.next_strategy().unwrap();
        match third {
            BuildStrategy::ToolchainFallback(t) => assert_eq!(t, "clang"),
            _ => panic!("expected the clang toolchain fallback"),
        }
    }
    session.record_outcome(AttemptOutcome::Success(ok_result(BuildSystem::CMake)));
    assert!(session.is_finished());
    assert_eq!(session.attempts_made(), 2);
}

#[test]
fn test_retry_loop_is_bounded_and_deduplicated() {
    // Feeding the same recognized failure forever terminates: repeated
    // strategies are never queued twice, so the session exhausts within
    // the finite strategy universe (at most six attempts).
    let mut session = Orchestrator::new(BuildSystem::PlatformIO);
    let error = "Could not install package framework-arduinoespressif32 on linux_x86_64";
    let mut attempts = 0;
    while !session.is_finished() {
        session.record_outcome(AttemptOutcome::Failure(error.to_string()));
        attempts += 1;
        assert!(attempts <= 6, "the retry loop must stay within the strategy universe");
    }
    assert!(session.succeeded().is_none());
    // Default plus the four distinct PlatformIO proposals.
    assert_eq!(attempts, 5);
}

#[test]
fn test_exhaustion_reports_last_error() {
    let mut session = Orchestrator::new(BuildSystem::SCons);
    // The first failure queues the scons dependency strategy.
    session.record_outcome(AttemptOutcome::Failure("scons: not found".to_string()));
    assert!(!session.is_finished());
    // The retry fails with text that matches only the already-queued rule,
    // so the queue is exhausted and the last error is surfaced.
    session.record_outcome(AttemptOutcome::Failure("still scons not found".to_string()));
    assert!(session.is_finished());
    assert!(session.succeeded().is_none());
    assert_eq!(session.last_error_text().unwrap(), "still scons not found");
    assert_eq!(session.attempts_made(), 2);
}

#[test]
fn test_success_cache_seeds_next_session() {
    // A recorded success is tried first on the next session for the same
    // fingerprint, ahead of Default.
    let mut builder = empty_builder();
    builder.record_success(
        "marker:platformio.ini",
        BuildStrategy::VersionDowngrade("5.4.0".to_string()),
    );
    let session = builder.start_session(BuildSystem::PlatformIO, "marker:platformio.ini");
    let first = session.next_strategy().unwrap();
    match first {
        BuildStrategy::VersionDowngrade(v) => assert_eq!(v, "5.4.0"),
        _ => panic!("expected the cached strategy first"),
    }
}

#[test]
fn test_success_cache_misses_other_fingerprints() {
    let mut builder = empty_builder();
    builder.record_success("project-a", BuildStrategy::ToolchainFallback("gcc".to_string()));
    let session = builder.start_session(BuildSystem::CMake, "project-b");
    let first = session.next_strategy().unwrap();
    assert!(matches!(first, BuildStrategy::Default));
}

#[test]
fn test_success_cache_latest_record_wins() {
    let mut builder = empty_builder();
    builder.record_success("fp", BuildStrategy::ToolchainFallback("gcc".to_string()));
    builder.record_success("fp", BuildStrategy::ToolchainFallback("clang".to_string()));
    match builder.cached_strategy("fp").unwrap() {
        BuildStrategy::ToolchainFallback(t) => assert_eq!(t, "clang"),
        _ => panic!("expected the most recent record"),
    }
}

#[test]
fn test_cached_default_is_not_duplicated() {
    let mut builder = empty_builder();
    builder.record_success("fp", BuildStrategy::Default);
    let mut session = builder.start_session(BuildSystem::CMake, "fp");
    let first = session.next_strategy().unwrap();
    assert!(matches!(first, BuildStrategy::Default));
    session.record_outcome(AttemptOutcome::Failure("opaque".to_string()));
    // The queue held only the single Default entry.
    assert!(session.is_finished());
}

#[test]
fn test_multiple_error_recovery_simulation() {
    let builder = empty_builder();
    let errors = [
        ("Could not install package framework-arduinoespressif32", BuildSystem::PlatformIO),
        ("Could not find compiler for C language", BuildSystem::CMake),
        ("make: gcc: No such file or directory", BuildSystem::Makefile),
    ];
    let mut all_strategies = Vec::new();
    for (error, system) in errors {
        if let Some(strategies) = builder.analyze_error(error, system) {
            all_strategies.extend(strategies);
        }
    }
    assert!(!all_strategies.is_empty());
    let has_version_downgrade =
        all_strategies.iter().any(|s| matches!(s, BuildStrategy::VersionDowngrade(_)));
    let has_toolchain_fallback =
        all_strategies.iter().any(|s| matches!(s, BuildStrategy::ToolchainFallback(_)));
    let has_dependency_resolution =
        all_strategies.iter().any(|s| matches!(s, BuildStrategy::DependencyResolution(_)));
    assert!(has_version_downgrade && has_toolchain_fallback && has_dependency_resolution);
}
