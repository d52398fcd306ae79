//! Session bootstrap: reading the service's answers about a credential, its limits and the
//! upload endpoint into an upload session.
use vstd::prelude::*;
use crate::error::EngineError;
use crate::outcome::{is_success, is_success_status};
use crate::size::{parse_size, size_in_bytes};

verus! {

#[derive(Debug, Clone, Copy, PartialEq, Eq, Structural)]
pub struct UserPermissions {
    pub user: bool,
    pub vip: bool,
    pub vvip: bool,
    pub moderator: bool,
    pub admin: bool,
    pub superadmin: bool,
}

/// The answer to a credential check.
#[allow(non_snake_case)]
#[derive(Debug, Clone)]
pub struct VerifyResponse {
    pub success: bool,
    pub username: Option<String>,
    pub permissions: Option<UserPermissions>,
    pub group: Option<String>,
    pub retentionPeriods: Option<Vec<i64>>,
    pub defaultRetentionPeriod: Option<i64>,
}

/// The answer naming the upload endpoint.
#[derive(Debug, Clone)]
pub struct NodeResponse {
    pub success: bool,
    pub url: String,
}

#[derive(Debug, Clone)]
pub struct ChunkSizeConfig {
    pub max: String,
    pub default: String,
    pub timeout: i64,
}

#[derive(Debug, Clone, Copy, PartialEq, Eq, Structural)]
pub struct FileIdentifierConfig {
    pub min: i64,
    pub max: i64,
    pub default: i64,
    pub force: bool,
}

#[allow(non_snake_case)]
#[derive(Debug, Clone)]
pub struct StripTagsConfig {
    pub default: bool,
    pub video: bool,
    pub force: bool,
    pub blacklistExtensions: Vec<String>,
}

/// The service's limits, as it reports them.
#[allow(non_snake_case)]
#[derive(Debug, Clone)]
pub struct BunkrConfig {
    pub maintenance: bool,
    pub private: bool,
    pub enableUserAccounts: bool,
    pub maxSize: String,
    pub chunkSize: ChunkSizeConfig,
    pub fileIdentifierLength: FileIdentifierConfig,
    pub stripTags: StripTagsConfig,
    pub temporaryUploadAges: Vec<i64>,
    pub defaultTemporaryUploadAge: i64,
}

/// What one run uploads with: fixed once it is established.
#[derive(Debug, Clone)]
pub struct Session {
    pub token: String,
    pub upload_url: String,
    /// The largest file size that is sent as it is: 95% of the service's maximum.
    pub max_file_size: u64,
    pub chunk_size: u64,
}

/// 95% of `max`, rounded down: room for the overhead of a multipart body.
pub open spec fn effective_max(max: nat) -> nat {
    max * 95 / 100
}

pub fn effective_max_size(max: u64) -> (r: u64)
    ensures
        r == effective_max(max as nat),
{
    let r = (max / 20) * 19 + (max % 20) * 19 / 20;
    assert(r == max * 95 / 100) by (nonlinear_arith)
        requires
            r == (max / 20) * 19 + (max % 20) * 19 / 20,
    ;
    r
}

/// Reads the answer to the credential check: a non-success status or a refusal is an
/// `Auth` error, a body that did not parse a `Parse` error.
pub fn check_verification(status: u16, parsed: Result<VerifyResponse, String>) -> (r: Result<
    (),
    EngineError,
>)
    ensures
        !is_success_status(status) ==> r == Err::<(), EngineError>(EngineError::Auth),
        is_success_status(status) ==> r == match parsed {
            Err(_) => Err(EngineError::Parse),
            Ok(v) => if v.success { Ok(()) } else { Err(EngineError::Auth) },
        },
{
    if !is_success(status) {
        return Err(EngineError::Auth);
    }
    match parsed {
        Err(_) => Err(EngineError::Parse),
        Ok(v) => if v.success { Ok(()) } else { Err(EngineError::Auth) },
    }
}

/// Reads the status of an answer whose body is read next: a non-success one is a `Server`
/// error carrying it.
pub fn check_status(status: u16) -> (r: Result<(), EngineError>)
    ensures
        is_success_status(status) ==> r is Ok,
        !is_success_status(status) ==> r == Err::<(), EngineError>(
            EngineError::Server { status },
        ),
{
    if is_success(status) {
        Ok(())
    } else {
        Err(EngineError::Server { status })
    }
}

/// Both size texts of the limits follow the grammar, fit in a `u64`, and the chunk size is
/// not zero.
pub open spec fn limits_usable(limits: &BunkrConfig) -> bool {
    &&& size_in_bytes(limits.maxSize@) is Some
    &&& size_in_bytes(limits.maxSize@)->0 <= u64::MAX
    &&& size_in_bytes(limits.chunkSize.default@) is Some
    &&& 0 < size_in_bytes(limits.chunkSize.default@)->0 <= u64::MAX
}

impl Session {
    pub open spec fn wf(&self) -> bool {
        self.chunk_size > 0
    }

    /// Builds the session from the credential, the service's limits and its upload endpoint.
    /// A size text outside the grammar, or a chunk size of zero bytes, is a `ConfigParse`
    /// error.
    pub fn establish(token: String, limits: &BunkrConfig, node: &NodeResponse) -> (r: Result<
        Session,
        EngineError,
    >)
        ensures
            match r {
                Ok(s) => {
                    &&& s.wf()
                    &&& s.token == token
                    &&& s.upload_url@ == node.url@
                    &&& size_in_bytes(limits.maxSize@) matches Some(m) && s.max_file_size
                        == effective_max(m)
                    &&& size_in_bytes(limits.chunkSize.default@) == Some(s.chunk_size as nat)
                },
                Err(e) => e == EngineError::ConfigParse && !limits_usable(limits),
            },
    {
        let max = match parse_size(limits.maxSize.as_str()) {
            Ok(m) => m,
            Err(e) => return Err(e),
        };
        let chunk_size = match parse_size(limits.chunkSize.default.as_str()) {
            Ok(c) => c,
            Err(e) => return Err(e),
        };
        if chunk_size == 0 {
            return Err(EngineError::ConfigParse);
        }
        Ok(
            Session {
                token,
                upload_url: node.url.clone(),
                max_file_size: effective_max_size(max),
                chunk_size,
            },
        )
    }
}

} // verus!
