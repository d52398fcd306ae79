//! The decisions of one file's upload: the single-shot request, and the chunked sequence of
//! chunk requests followed by one finalize call.
//!
//! A [`ChunkedUpload`] names each request to send, in strict order, and is told the answer to
//! it; the requests themselves are sent by the caller.
use vstd::prelude::*;
use crate::outcome::{is_failure, TransferOutcome, UploadResponse, UploadStage, upload_outcome,
    upload_outcome_spec, is_success, is_success_status};
use crate::plan::{chunk_at, chunk_count, chunks_of, count_chunks, plan_of, plan_transfer,
    TransferPlan};
use crate::text::{chars_of, opt_string_view, opt_view, decimal, decimal_chars, parse_signed, push_text, signed_literal,
    string_of};

verus! {

/// The media type that `mime_guess` infers from the extension of a path.
pub uninterp spec fn guessed_media_type(path: Seq<char>) -> Seq<char>;

/// Relies on `mime_guess::from_path(..).first_or_octet_stream()`: the media type that the
/// extension of `path` maps to, or `application/octet-stream`; it depends on the path alone.
#[verifier::external_body]
pub(crate) fn media_type_of(path: &str) -> (r: String)
    ensures
        r@ == guessed_media_type(path@),
{
    mime_guess::from_path(path).first_or_octet_stream().essence_str().to_string()
}

/// Relies on `uuid::Uuid::new_v4` and its hyphenated text form: a fresh random identifier of
/// 36 characters.
#[verifier::external_body]
fn new_batch_id() -> (r: String)
    ensures
        r@.len() == 36,
{
    uuid::Uuid::new_v4().to_string()
}

/// The album number that a finalize call carries: none without an album, the album's number
/// where it reads as one, and 0 where it does not.
pub open spec fn finalize_album(album_id: Option<Seq<char>>) -> Option<i64> {
    match album_id {
        None => None,
        Some(a) => match signed_literal(a) {
            Some(v) => if i64::MIN <= v <= i64::MAX { Some(v as i64) } else { Some(0) },
            None => Some(0),
        },
    }
}

pub fn finalize_album_id(album_id: Option<&str>) -> (r: Option<i64>)
    ensures
        r == finalize_album(opt_view(album_id)),
{
    match album_id {
        None => None,
        Some(a) => {
            let cs = chars_of(a);
            match parse_signed(&cs) {
                Some(v) => Some(v),
                None => Some(0),
            }
        },
    }
}

/// The form fields of one chunk request.
#[derive(Debug, Clone)]
pub struct ChunkRequest {
    pub batch_id: String,
    pub index: u64,
    pub total_size: u64,
    pub chunk_size: u64,
    pub total_chunks: u64,
    pub offset: u64,
    pub length: u64,
}

/// The body of the finalize call that closes a chunked upload.
#[derive(Debug, Clone)]
pub struct FinalizeRequest {
    pub batch_id: String,
    pub original: String,
    pub media_type: String,
    pub album_id: Option<i64>,
}

/// The next thing a chunked upload asks for.
#[derive(Debug, Clone)]
pub enum ChunkStep {
    /// Send this chunk, then report the answer with `on_chunk_answer`.
    Send(ChunkRequest),
    /// Send the finalize call, then report the answer with `on_finalize_answer`.
    Finalize(FinalizeRequest),
    /// Nothing more: the outcome was given already.
    Finished,
}

pub struct ChunkedUpload {
    path: String,
    file_name: String,
    media_type: String,
    album_id: Option<i64>,
    size: u64,
    chunk_size: u64,
    batch_id: String,
    total: u64,
    next: u64,
    finished: bool,
}

/// A single-shot upload: one request carries the whole file.
pub struct SingleUpload {
    pub path: String,
    pub file_name: String,
    pub media_type: String,
    /// The value of the album header, where the file goes to an album.
    pub album_id: Option<String>,
    pub size: u64,
}

/// How one file is uploaded.
pub enum UploadJob {
    Single(SingleUpload),
    Chunked(ChunkedUpload),
}

/// Starts the upload of the file at `path`, named `file_name`, of `size` bytes: in one request
/// where it is no larger than a chunk, else in chunks.
pub fn start_upload(path: &str, file_name: &str, album_id: Option<&str>, size: u64, chunk_size: u64) -> (r:
    UploadJob)
    requires
        chunk_size > 0,
    ensures
        plan_of(size as nat, chunk_size as nat) == TransferPlan::Single ==> (r matches UploadJob::Single(
            u,
        ) && u.path@ == path@ && u.file_name@ == file_name@ && u.media_type@ == guessed_media_type(
            path@,
        ) && opt_string_view(u.album_id) == opt_view(album_id) && u.size == size),
        plan_of(size as nat, chunk_size as nat) != TransferPlan::Single ==> (r matches UploadJob::Chunked(
            c,
        ) && c.wf() && c.path_spec() == path@ && c.file_name_spec() == file_name@
            && c.media_type_spec() == guessed_media_type(path@) && c.album_spec() == finalize_album(
            opt_view(album_id),
        ) && c.size_spec() == size && c.chunk_size_spec() == chunk_size && c.sent() == 0
            && !c.finished_spec()),
{
    match plan_transfer(size, chunk_size) {
        TransferPlan::Single => UploadJob::Single(
            SingleUpload {
                path: path.to_owned(),
                file_name: file_name.to_owned(),
                media_type: media_type_of(path),
                album_id: match album_id {
                    Some(a) => Some(a.to_owned()),
                    None => None,
                },
                size,
            },
        ),
        TransferPlan::Chunked { .. } => UploadJob::Chunked(
            ChunkedUpload::new(path, file_name, album_id, size, chunk_size),
        ),
    }
}

impl SingleUpload {
    /// Reads the answer to the upload request: it decides the file's outcome.
    pub fn on_answer(&self, status: u16, body: &str, parsed: Result<UploadResponse, String>) -> (r:
        TransferOutcome)
        ensures
            upload_outcome_spec(
                UploadStage::Single,
                self.path@,
                self.size,
                status,
                body@,
                parsed,
                r,
            ),
    {
        upload_outcome(UploadStage::Single, self.path.as_str(), self.size, status, body, parsed)
    }
}

pub open spec fn transport_failure_text(reason: Seq<char>) -> Seq<char> {
    "Request could not be completed: "@ + reason
}

/// The outcome of a file whose request still failed at the transport level once the retry
/// budget was spent.
pub fn transport_failure(path: &str, size: u64, reason: &str) -> (r: TransferOutcome)
    ensures
        is_failure(r, path@, size, transport_failure_text(reason@), None),
{
    let mut m: Vec<char> = Vec::new();
    push_text(&mut m, "Request could not be completed: ");
    push_text(&mut m, reason);
    TransferOutcome::Failed(
        crate::outcome::FailedUploadInfo {
            path: path.to_owned(),
            error: string_of(&m),
            file_size: size,
            status_code: None,
        },
    )
}

pub open spec fn chunk_failure_text(index: u64, status: u16, body: Seq<char>) -> Seq<char> {
    "Chunk "@ + decimal(index as nat) + " upload failed with status "@ + decimal(status as nat)
        + ": "@ + body
}

impl ChunkedUpload {
    pub closed spec fn path_spec(&self) -> Seq<char> {
        self.path@
    }

    pub closed spec fn file_name_spec(&self) -> Seq<char> {
        self.file_name@
    }

    pub closed spec fn media_type_spec(&self) -> Seq<char> {
        self.media_type@
    }

    pub closed spec fn album_spec(&self) -> Option<i64> {
        self.album_id
    }

    pub closed spec fn size_spec(&self) -> u64 {
        self.size
    }

    pub closed spec fn chunk_size_spec(&self) -> u64 {
        self.chunk_size
    }

    /// The identifier that all chunks of this file share.
    pub closed spec fn batch_id_spec(&self) -> Seq<char> {
        self.batch_id@
    }

    /// How many chunks were sent and acknowledged so far.
    pub closed spec fn sent(&self) -> nat {
        self.next as nat
    }

    pub closed spec fn finished_spec(&self) -> bool {
        self.finished
    }

    pub open spec fn total_chunks(&self) -> nat {
        chunk_count(self.size_spec() as nat, self.chunk_size_spec() as nat)
    }

    pub closed spec fn wf(&self) -> bool {
        &&& self.chunk_size > 0
        &&& self.total == chunk_count(self.size as nat, self.chunk_size as nat)
        &&& self.next <= self.total
        &&& self.batch_id@.len() == 36
    }

    /// The request for chunk `i` of this file.
    pub open spec fn request_for(&self, r: ChunkRequest, i: nat) -> bool {
        let t = chunks_of(self.size_spec() as nat, self.chunk_size_spec() as nat)[i as int];
        &&& r.batch_id@ == self.batch_id_spec()
        &&& r.index == t.index
        &&& r.offset == t.offset
        &&& r.length == t.length
        &&& r.total_size == self.size_spec()
        &&& r.chunk_size == self.chunk_size_spec()
        &&& r.total_chunks == self.total_chunks()
    }

    /// Starts the chunked upload of the file at `path`, named `file_name`, of `size` bytes,
    /// under a fresh batch identifier.
    pub fn new(path: &str, file_name: &str, album_id: Option<&str>, size: u64, chunk_size: u64) -> (r:
        ChunkedUpload)
        requires
            chunk_size > 0,
        ensures
            r.wf(),
            r.path_spec() == path@,
            r.file_name_spec() == file_name@,
            r.media_type_spec() == guessed_media_type(path@),
            r.album_spec() == finalize_album(opt_view(album_id)),
            r.size_spec() == size,
            r.chunk_size_spec() == chunk_size,
            r.sent() == 0,
            !r.finished_spec(),
    {
        ChunkedUpload {
            path: path.to_owned(),
            file_name: file_name.to_owned(),
            media_type: media_type_of(path),
            album_id: finalize_album_id(album_id),
            size,
            chunk_size,
            batch_id: new_batch_id(),
            total: count_chunks(size, chunk_size),
            next: 0,
            finished: false,
        }
    }

    /// What to send next: the chunks in order of their index, then the finalize call.
    pub fn next_step(&self) -> (r: ChunkStep)
        requires
            self.wf(),
        ensures
            self.finished_spec() ==> r is Finished,
            !self.finished_spec() && self.sent() < self.total_chunks() ==> (r matches ChunkStep::Send(
                req,
            ) && self.request_for(req, self.sent())),
            !self.finished_spec() && self.sent() == self.total_chunks() ==> (r matches ChunkStep::Finalize(
                f,
            ) && f.batch_id@ == self.batch_id_spec() && f.original@ == self.file_name_spec()
                && f.media_type@ == self.media_type_spec() && f.album_id == self.album_spec()),
    {
        if self.finished {
            ChunkStep::Finished
        } else if self.next < self.total {
            let t = chunk_at(self.size, self.chunk_size, self.next);
            ChunkStep::Send(
                ChunkRequest {
                    batch_id: self.batch_id.clone(),
                    index: t.index,
                    total_size: self.size,
                    chunk_size: self.chunk_size,
                    total_chunks: self.total,
                    offset: t.offset,
                    length: t.length,
                },
            )
        } else {
            ChunkStep::Finalize(
                FinalizeRequest {
                    batch_id: self.batch_id.clone(),
                    original: self.file_name.clone(),
                    media_type: self.media_type.clone(),
                    album_id: self.album_id,
                },
            )
        }
    }

    /// Takes the HTTP status of the answer to the chunk just sent. A success moves on to the
    /// next chunk; any other status ends the upload with a failure for the whole file, and the
    /// remaining chunks are not sent.
    pub fn on_chunk_answer(&mut self, status: u16, body: &str) -> (r: Option<TransferOutcome>)
        requires
            old(self).wf(),
            !old(self).finished_spec(),
            old(self).sent() < old(self).total_chunks(),
        ensures
            final(self).wf(),
            final(self).path_spec() == old(self).path_spec(),
            final(self).file_name_spec() == old(self).file_name_spec(),
            final(self).media_type_spec() == old(self).media_type_spec(),
            final(self).album_spec() == old(self).album_spec(),
            final(self).size_spec() == old(self).size_spec(),
            final(self).chunk_size_spec() == old(self).chunk_size_spec(),
            final(self).batch_id_spec() == old(self).batch_id_spec(),
            is_success_status(status) ==> r is None && final(self).sent() == old(self).sent() + 1
                && !final(self).finished_spec(),
            !is_success_status(status) ==> final(self).finished_spec() && final(self).sent()
                == old(self).sent() && (r matches Some(o) && is_failure(
                o,
                old(self).path_spec(),
                old(self).size_spec(),
                chunk_failure_text(old(self).sent() as u64, status, body@),
                Some(status),
            )),
    {
        if is_success(status) {
            self.next = self.next + 1;
            None
        } else {
            self.finished = true;
            let mut m: Vec<char> = Vec::new();
            push_text(&mut m, "Chunk ");
            let mut d = decimal_chars(self.next);
            m.append(&mut d);
            push_text(&mut m, " upload failed with status ");
            let mut d2 = decimal_chars(status as u64);
            m.append(&mut d2);
            push_text(&mut m, ": ");
            push_text(&mut m, body);
            Some(
                TransferOutcome::Failed(
                    crate::outcome::FailedUploadInfo {
                        path: self.path.clone(),
                        error: string_of(&m),
                        file_size: self.size,
                        status_code: Some(status),
                    },
                ),
            )
        }
    }

    /// Takes the answer to the finalize call: it decides the file's outcome, and the upload is
    /// over.
    pub fn on_finalize_answer(
        &mut self,
        status: u16,
        body: &str,
        parsed: Result<UploadResponse, String>,
    ) -> (r: TransferOutcome)
        requires
            old(self).wf(),
            !old(self).finished_spec(),
            old(self).sent() == old(self).total_chunks(),
        ensures
            final(self).wf(),
            final(self).finished_spec(),
            final(self).sent() == old(self).sent(),
            final(self).path_spec() == old(self).path_spec(),
            final(self).size_spec() == old(self).size_spec(),
            final(self).chunk_size_spec() == old(self).chunk_size_spec(),
            upload_outcome_spec(
                UploadStage::Finalize,
                old(self).path_spec(),
                old(self).size_spec(),
                status,
                body@,
                parsed,
                r,
            ),
    {
        self.finished = true;
        upload_outcome(UploadStage::Finalize, self.path.as_str(), self.size, status, body, parsed)
    }
}

} // verus!
