use nabla_runner::text::parse_u64_digits;
use nabla_runner::validation::BuildParams;
use nabla_runner::validation::CustomerConfig;
use nabla_runner::validation::ParamError;
use nabla_runner::validation::tail_chars;
use nabla_runner::validation::validate_archive_url;
use nabla_runner::validation::validate_params;

fn good_params() -> BuildParams {
    BuildParams {
        job_id: "job-1".to_string(),
        archive_url: "https://example.com/archive.tar.gz".to_string(),
        owner: "octocat".to_string(),
        repo: "hello-world".to_string(),
        installation_id: "12345".to_string(),
    }
}

#[test]
fn test_parameter_validation() {
    assert!(validate_params(&good_params()).is_ok());

    let mut p = good_params();
    p.archive_url = "http://example.com/a.tar.gz".to_string();
    assert_eq!(validate_params(&p), Err(ParamError::InvalidArchiveUrl));

    let mut p = good_params();
    p.owner = String::new();
    assert_eq!(validate_params(&p), Err(ParamError::InvalidOwner));

    let mut p = good_params();
    p.owner = "o".repeat(101);
    assert_eq!(validate_params(&p), Err(ParamError::InvalidOwner));

    let mut p = good_params();
    p.repo = "r".repeat(101);
    assert_eq!(validate_params(&p), Err(ParamError::InvalidRepo));

    let mut p = good_params();
    p.installation_id = "not-a-number".to_string();
    assert_eq!(validate_params(&p), Err(ParamError::InvalidInstallationId));

    let mut p = good_params();
    p.installation_id = "0".to_string();
    assert_eq!(validate_params(&p), Err(ParamError::NonPositiveInstallationId));
}

#[test]
fn test_validate_archive_url() {
    assert!(validate_archive_url("https://example.com/a.tar.gz"));
    assert!(!validate_archive_url("http://example.com/a.tar.gz"));
    assert!(!validate_archive_url("https://"));
    assert!(!validate_archive_url(""));
    let long = format!("https://{}", "a".repeat(500));
    assert!(!validate_archive_url(&long));
    let edge = format!("https://{}", "a".repeat(492));
    assert!(validate_archive_url(&edge));
}

#[test]
fn test_param_error_messages() {
    assert_eq!(
        ParamError::InvalidArchiveUrl.message(),
        "Invalid archive_url - must be a valid HTTPS URL"
    );
    assert_eq!(ParamError::InvalidOwner.message(), "Invalid owner - must be 1-100 characters");
    assert_eq!(ParamError::InvalidRepo.message(), "Invalid repo - must be 1-100 characters");
    assert_eq!(ParamError::InvalidInstallationId.message(), "Invalid installation_id");
    assert_eq!(
        ParamError::NonPositiveInstallationId.message(),
        "Installation ID must be positive"
    );
}

#[test]
fn test_parse_u64_digits() {
    assert_eq!(parse_u64_digits("0"), Some(0));
    assert_eq!(parse_u64_digits("12345"), Some(12345));
    assert_eq!(parse_u64_digits("18446744073709551615"), Some(u64::MAX));
    assert_eq!(parse_u64_digits("18446744073709551616"), None);
    assert_eq!(parse_u64_digits(""), None);
    assert_eq!(parse_u64_digits("12a"), None);
    assert_eq!(parse_u64_digits("-1"), None);
}

#[test]
fn test_installation_allow_list() {
    let open_config = CustomerConfig::new("default".to_string(), Vec::new());
    // An empty allow-list accepts every installation.
    assert!(open_config.validate_installation_id("12345"));
    let restricted = CustomerConfig::new(
        "acme".to_string(),
        vec!["111".to_string(), "222".to_string()],
    );
    assert!(restricted.validate_installation_id("111"));
    assert!(restricted.validate_installation_id("222"));
    assert!(!restricted.validate_installation_id("333"));
}

#[test]
fn test_tail_chars() {
    assert_eq!(tail_chars("short log", 4000), "short log");
    assert_eq!(tail_chars("abcdef", 3), "def");
    assert_eq!(tail_chars("abcdef", 0), "");
    assert_eq!(tail_chars("", 10), "");
}
