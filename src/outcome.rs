//! What one transfer ends in, and how a service answer to an upload is read.
use vstd::prelude::*;
use crate::text::{decimal, decimal_chars, push_text, string_of};

verus! {

/// A report of one failed transfer.
#[derive(Debug, Clone)]
pub struct FailedUploadInfo {
    pub path: String,
    pub error: String,
    pub file_size: u64,
    pub status_code: Option<u16>,
}

/// One file entry of an upload answer.
#[derive(Debug, Clone)]
pub struct UploadedFile {
    pub url: String,
}

/// The service's answer to an upload or to a finalize call.
#[derive(Debug, Clone)]
pub struct UploadResponse {
    pub success: bool,
    pub files: Option<Vec<UploadedFile>>,
}

/// Exactly one of: the remote address a file got, or why it got none.
#[derive(Debug, Clone)]
pub enum TransferOutcome {
    Uploaded(String),
    Failed(FailedUploadInfo),
}

/// The step of an upload that an answer belongs to.
#[derive(Debug, Clone, Copy, PartialEq, Eq, Structural)]
pub enum UploadStage {
    /// The one request of a single-shot upload.
    Single,
    /// The request that closes a chunked upload.
    Finalize,
}

pub open spec fn is_success_status(status: u16) -> bool {
    200 <= status && status < 300
}

pub fn is_success(status: u16) -> (r: bool)
    ensures
        r == is_success_status(status),
{
    200 <= status && status < 300
}

pub open spec fn status_failure_text(stage: UploadStage, status: u16, body: Seq<char>) -> Seq<char> {
    let lead = match stage {
        UploadStage::Single => "Upload request failed with status "@,
        UploadStage::Finalize => "Finish chunks request failed with status "@,
    };
    lead + decimal(status as nat) + ": "@ + body
}

pub open spec fn parse_failure_text(stage: UploadStage, reason: Seq<char>) -> Seq<char> {
    let lead = match stage {
        UploadStage::Single => "Failed to parse upload response: "@,
        UploadStage::Finalize => "Failed to parse finish chunks response: "@,
    };
    lead + reason
}

pub open spec fn refusal_text(stage: UploadStage) -> Seq<char> {
    match stage {
        UploadStage::Single => "Upload failed: server returned success=false"@,
        UploadStage::Finalize => "Finish chunks failed: server returned success=false"@,
    }
}

pub open spec fn no_url_text(stage: UploadStage) -> Seq<char> {
    match stage {
        UploadStage::Single => "Upload failed: server named no uploaded file"@,
        UploadStage::Finalize => "Finish chunks failed: server named no uploaded file"@,
    }
}

/// The address of the first file that an answer names, if any.
pub open spec fn first_url(files: Option<Vec<UploadedFile>>) -> Option<Seq<char>> {
    match files {
        Some(v) => if v@.len() > 0 { Some(v@[0].url@) } else { None },
        None => None,
    }
}

/// A failure with the given message, path, size and status code.
pub open spec fn is_failure(
    o: TransferOutcome,
    path: Seq<char>,
    size: u64,
    message: Seq<char>,
    status_code: Option<u16>,
) -> bool {
    match o {
        TransferOutcome::Failed(f) => f.path@ == path && f.file_size == size && f.error@ == message
            && f.status_code == status_code,
        TransferOutcome::Uploaded(_) => false,
    }
}

/// What an answer to an upload request means for the file: a non-success status, a body that
/// did not parse (with the parser's reason), a refusal, and an answer that names no file each
/// fail it; otherwise it got the first address named.
pub open spec fn upload_outcome_spec(
    stage: UploadStage,
    path: Seq<char>,
    file_size: u64,
    status: u16,
    body: Seq<char>,
    parsed: Result<UploadResponse, String>,
    o: TransferOutcome,
) -> bool {
    if !is_success_status(status) {
        is_failure(o, path, file_size, status_failure_text(stage, status, body), Some(status))
    } else {
        match parsed {
            Err(reason) => is_failure(o, path, file_size, parse_failure_text(stage, reason@), None),
            Ok(res) => if !res.success {
                is_failure(o, path, file_size, refusal_text(stage), None)
            } else {
                match first_url(res.files) {
                    Some(u) => o matches TransferOutcome::Uploaded(url) && url@ == u,
                    None => is_failure(o, path, file_size, no_url_text(stage), None),
                }
            },
        }
    }
}

/// A copy of a failure report, field for field.
pub fn copy_failure(f: &FailedUploadInfo) -> (r: FailedUploadInfo)
    ensures
        r == *f,
{
    FailedUploadInfo {
        path: f.path.clone(),
        error: f.error.clone(),
        file_size: f.file_size,
        status_code: f.status_code,
    }
}

fn failure(path: &str, file_size: u64, message: &Vec<char>, status_code: Option<u16>) -> (o:
    TransferOutcome)
    ensures
        is_failure(o, path@, file_size, message@, status_code),
{
    TransferOutcome::Failed(
        FailedUploadInfo {
            path: path.to_owned(),
            error: string_of(message),
            file_size,
            status_code,
        },
    )
}

/// Reads the service's answer to an upload or a finalize request of the file at `path`.
pub fn upload_outcome(
    stage: UploadStage,
    path: &str,
    file_size: u64,
    status: u16,
    body: &str,
    parsed: Result<UploadResponse, String>,
) -> (o: TransferOutcome)
    ensures
        upload_outcome_spec(stage, path@, file_size, status, body@, parsed, o),
{
    if !is_success(status) {
        let mut m: Vec<char> = Vec::new();
        match stage {
            UploadStage::Single => push_text(&mut m, "Upload request failed with status "),
            UploadStage::Finalize => push_text(&mut m, "Finish chunks request failed with status "),
        }
        let mut d = decimal_chars(status as u64);
        m.append(&mut d);
        push_text(&mut m, ": ");
        push_text(&mut m, body);
        return failure(path, file_size, &m, Some(status));
    }
    match parsed {
        Err(reason) => {
            let mut m: Vec<char> = Vec::new();
            match stage {
                UploadStage::Single => push_text(&mut m, "Failed to parse upload response: "),
                UploadStage::Finalize => push_text(&mut m, "Failed to parse finish chunks response: "),
            }
            push_text(&mut m, reason.as_str());
            failure(path, file_size, &m, None)
        },
        Ok(res) => {
            if !res.success {
                let mut m: Vec<char> = Vec::new();
                match stage {
                    UploadStage::Single => push_text(
                        &mut m,
                        "Upload failed: server returned success=false",
                    ),
                    UploadStage::Finalize => push_text(
                        &mut m,
                        "Finish chunks failed: server returned success=false",
                    ),
                }
                return failure(path, file_size, &m, None);
            }
            match res.files {
                Some(v) => {
                    if v.len() > 0 {
                        return TransferOutcome::Uploaded(v[0].url.clone());
                    }
                },
                None => {},
            }
            let mut m: Vec<char> = Vec::new();
            match stage {
                UploadStage::Single => push_text(&mut m, "Upload failed: server named no uploaded file"),
                UploadStage::Finalize => push_text(
                    &mut m,
                    "Finish chunks failed: server named no uploaded file",
                ),
            }
            failure(path, file_size, &m, None)
        },
    }
}

} // verus!
