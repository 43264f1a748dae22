//! Request validation: the checks a build request must pass before a job
//! is created, and the per-customer installation allow-list.

use vstd::prelude::*;
use crate::strategy::strings_view;
use crate::text::all_digits;
use crate::text::digits_value;
use crate::text::parse_u64_digits;
use crate::text::starts_with_text;
use crate::text::str_eq;

verus! {

/// The plain fields of a build request.
pub struct BuildParams {
    pub job_id: String,
    pub archive_url: String,
    pub owner: String,
    pub repo: String,
    pub installation_id: String,
}

/// Why a build request was rejected.
#[derive(Debug, Clone, Copy, PartialEq, Eq, Structural)]
pub enum ParamError {
    InvalidArchiveUrl,
    InvalidOwner,
    InvalidRepo,
    InvalidInstallationId,
    NonPositiveInstallationId,
}

impl ParamError {
    /// A human-readable description of the rejection.
    pub fn message(&self) -> (r: String)
        ensures
            match self {
                ParamError::InvalidArchiveUrl => r@ == "Invalid archive_url - must be a valid HTTPS URL"@,
                ParamError::InvalidOwner => r@ == "Invalid owner - must be 1-100 characters"@,
                ParamError::InvalidRepo => r@ == "Invalid repo - must be 1-100 characters"@,
                ParamError::InvalidInstallationId => r@ == "Invalid installation_id"@,
                ParamError::NonPositiveInstallationId => r@ == "Installation ID must be positive"@,
            },
    {
        match self {
            ParamError::InvalidArchiveUrl => "Invalid archive_url - must be a valid HTTPS URL".to_owned(),
            ParamError::InvalidOwner => "Invalid owner - must be 1-100 characters".to_owned(),
            ParamError::InvalidRepo => "Invalid repo - must be 1-100 characters".to_owned(),
            ParamError::InvalidInstallationId => "Invalid installation_id".to_owned(),
            ParamError::NonPositiveInstallationId => "Installation ID must be positive".to_owned(),
        }
    }
}

/// An acceptable archive locator: an `https://` URL of a sane length
/// (between 9 and 500 characters).
pub open spec fn url_valid(u: Seq<char>) -> bool {
    &&& u.len() > 8
    &&& u.len() <= 500
    &&& u.subrange(0, 8) == "https://"@
}

/// Whether this archive URL is acceptable.
pub fn validate_archive_url(url: &str) -> (r: bool)
    ensures
        r == url_valid(url@),
{
    proof {
        reveal_strlit("https://");
    }
    let n = url.unicode_len();
    starts_with_text(url, "https://") && n > 8 && n <= 500
}

/// The first check a request fails, or `None` when it is acceptable: the
/// URL must be a sane `https://` locator, owner and repo must be 1 to 100
/// characters, and the installation id must read as a positive integer.
pub open spec fn params_check(
    url: Seq<char>,
    owner: Seq<char>,
    repo: Seq<char>,
    installation_id: Seq<char>,
) -> Option<ParamError> {
    if !url_valid(url) {
        Some(ParamError::InvalidArchiveUrl)
    } else if owner.len() == 0 || owner.len() > 100 {
        Some(ParamError::InvalidOwner)
    } else if repo.len() == 0 || repo.len() > 100 {
        Some(ParamError::InvalidRepo)
    } else if installation_id.len() == 0 || !all_digits(installation_id) || digits_value(
        installation_id,
    ) > u64::MAX {
        Some(ParamError::InvalidInstallationId)
    } else if digits_value(installation_id) == 0 {
        Some(ParamError::NonPositiveInstallationId)
    } else {
        None
    }
}

/// Validates a build request, reporting the first check it fails.
pub fn validate_params(params: &BuildParams) -> (r: Result<(), ParamError>)
    ensures
        match r {
            Ok(_) => params_check(
                params.archive_url@,
                params.owner@,
                params.repo@,
                params.installation_id@,
            ) is None,
            Err(e) => params_check(
                params.archive_url@,
                params.owner@,
                params.repo@,
                params.installation_id@,
            ) == Some(e),
        },
{
    if !validate_archive_url(params.archive_url.as_str()) {
        return Err(ParamError::InvalidArchiveUrl);
    }
    let owner_len = params.owner.as_str().unicode_len();
    if owner_len == 0 || owner_len > 100 {
        return Err(ParamError::InvalidOwner);
    }
    let repo_len = params.repo.as_str().unicode_len();
    if repo_len == 0 || repo_len > 100 {
        return Err(ParamError::InvalidRepo);
    }
    match parse_u64_digits(params.installation_id.as_str()) {
        None => Err(ParamError::InvalidInstallationId),
        Some(v) => {
            if v == 0 {
                Err(ParamError::NonPositiveInstallationId)
            } else {
                Ok(())
            }
        },
    }
}

/// Which customer this runner serves and which installations it accepts.
pub struct CustomerConfig {
    pub customer_id: String,
    pub allowed_installation_ids: Vec<String>,
}

impl CustomerConfig {
    pub fn new(customer_id: String, allowed_installation_ids: Vec<String>) -> (r: CustomerConfig)
        ensures
            r.customer_id == customer_id,
            r.allowed_installation_ids == allowed_installation_ids,
    {
        CustomerConfig { customer_id, allowed_installation_ids }
    }

    /// Whether this installation id may build here: an empty allow-list
    /// accepts every installation, otherwise the id must be listed.
    #[verifier::loop_isolation(false)]
    pub fn validate_installation_id(&self, installation_id: &str) -> (r: bool)
        ensures
            r == (strings_view(self.allowed_installation_ids@).len() == 0 || strings_view(
                self.allowed_installation_ids@,
            ).contains(installation_id@)),
    {
        let ids = &self.allowed_installation_ids;
        if ids.len() == 0 {
            return true;
        }
        let mut i: usize = 0;
        while i < ids.len()
            invariant
                i <= ids@.len(),
                forall|k: int| 0 <= k < i ==> #[trigger] strings_view(ids@)[k]
                    != installation_id@,
            decreases ids@.len() - i,
        {
            proof {
                assert(strings_view(ids@)[i as int] == ids@[i as int]@);
            }
            if str_eq(ids[i].as_str(), installation_id) {
                proof {
                    assert(strings_view(self.allowed_installation_ids@).contains(
                        installation_id@,
                    )) by {
                        assert(strings_view(self.allowed_installation_ids@)[i as int]
                            == installation_id@);
                    }
                }
                return true;
            }
            i += 1;
        }
        false
    }
}

/// The last `n` characters of a build log, or all of it when it is short.
pub fn tail_chars(s: &str, n: usize) -> (r: String)
    ensures
        r@ == if s@.len() <= n {
            s@
        } else {
            s@.skip(s@.len() - n)
        },
{
    let len = s.unicode_len();
    if len <= n {
        s.to_owned()
    } else {
        let r = s.substring_char(len - n, len);
        proof {
            assert(r@ =~= s@.skip(s@.len() - n));
        }
        r.to_owned()
    }
}

} // verus!
