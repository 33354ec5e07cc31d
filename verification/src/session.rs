//! Transfers as they go: what to ask the platform next, given its last answer.
use vstd::prelude::*;

use crate::api::{
    block_start, blocks_error, chosen_host, completed_len, create_request_of, download_plan,
    filemetas_request, first_match, first_metadata, get_file_metadata, list_request,
    locate_request_of, normalize_remote_path, normalized_remote, part_at, part_file_name,
    part_request_of, remote_name, remote_parent, required_parts, resolve_entry_by_path, summary_of,
    upload_host, upload_parts, CreateResponse, DownloadPlan, EntryLookup, FileMetaEntry,
    LocateUploadResponse, PanClient, PrecreateResponse, RemoteEntry, UploadPart, UploadPlan,
    UploadPlanView, UploadSession, UploadSummary, UploadSummaryView,
};
use crate::error::{outcome, Error, ErrorView};
use crate::http::{HttpRequest, HttpRequestView};
use crate::text::numeral;

verus! {

// Uploads.

/// What came of the last thing that an upload asked for.
#[derive(Debug, Clone, PartialEq, Eq)]
pub enum UploadEvent {
    Announced(PrecreateResponse),
    Located(LocateUploadResponse),
    Sent,
    Created(CreateResponse),
}

/// What an upload asks for.
#[derive(Debug, Clone, PartialEq, Eq)]
pub enum UploadAction {
    /// Keep what the platform knows the upload as, and send this request.
    Locate { uploadid: String, request: HttpRequest },
    /// Send this block of the file, under this name.
    Send { part: UploadPart, request: HttpRequest, file_name: String },
    /// Send this request.
    Create(HttpRequest),
    /// Nothing: the file is there.
    Finish(UploadSummary),
}

#[verifier::ext_equal]
pub enum UploadActionView {
    Locate { uploadid: Seq<char>, request: HttpRequestView },
    Send { part: UploadPart, request: HttpRequestView, file_name: Seq<char> },
    Create(HttpRequestView),
    Finish(UploadSummaryView),
}

impl View for UploadAction {
    type V = UploadActionView;

    open spec fn view(&self) -> UploadActionView {
        match *self {
            UploadAction::Locate { uploadid, request } => UploadActionView::Locate {
                uploadid: uploadid@,
                request: request@,
            },
            UploadAction::Send { part, request, file_name } => UploadActionView::Send {
                part,
                request: request@,
                file_name: file_name@,
            },
            UploadAction::Create(request) => UploadActionView::Create(request@),
            UploadAction::Finish(summary) => UploadActionView::Finish(summary@),
        }
    }
}

/// How far an upload is: what it has learned from the platform, and the block on its way.
#[derive(Debug, Clone, PartialEq, Eq)]
pub enum UploadStage {
    Announcing,
    Locating { session: UploadSession },
    Sending { uploadid: String, host: String, parts: Vec<UploadPart>, next: usize },
    Creating,
    Finished,
}

#[verifier::ext_equal]
pub enum UploadStageView {
    Announcing,
    Locating { uploadid: Seq<char>, required: Seq<usize> },
    Sending { uploadid: Seq<char>, host: Seq<char>, parts: Seq<UploadPart>, next: int },
    Creating,
    Finished,
}

impl View for UploadStage {
    type V = UploadStageView;

    open spec fn view(&self) -> UploadStageView {
        match *self {
            UploadStage::Announcing => UploadStageView::Announcing,
            UploadStage::Locating { session } => UploadStageView::Locating {
                uploadid: session.uploadid@,
                required: session.required_parts@,
            },
            UploadStage::Sending { uploadid, host, parts, next } => UploadStageView::Sending {
                uploadid: uploadid@,
                host: host@,
                parts: parts@,
                next: next as int,
            },
            UploadStage::Creating => UploadStageView::Creating,
            UploadStage::Finished => UploadStageView::Finished,
        }
    }
}

/// An upload as it goes. `progress` is how many bytes the platform has.
#[derive(Debug, Clone, PartialEq, Eq)]
pub struct UploadRun {
    pub plan: UploadPlan,
    pub stage: UploadStage,
    pub progress: u64,
}

#[verifier::ext_equal]
pub struct UploadRunView {
    pub plan: UploadPlanView,
    pub stage: UploadStageView,
    pub progress: u64,
}

impl View for UploadRun {
    type V = UploadRunView;

    open spec fn view(&self) -> UploadRunView {
        UploadRunView { plan: self.plan@, stage: self.stage@, progress: self.progress }
    }
}

impl UploadRunView {
    /// The block on its way is one of those to send.
    pub open spec fn wf(self) -> bool {
        &&& block_start(self.plan.parts as int) <= u64::MAX
        &&& self.stage matches UploadStageView::Locating { required, .. } ==> block_start(
            required.len() as int,
        ) <= u64::MAX
        &&& self.stage matches UploadStageView::Sending { parts, next, .. } ==> 0 <= next
            < parts.len()
    }

    /// What an event brings fits into memory.
    pub open spec fn takes(self, event: UploadEvent) -> bool {
        event matches UploadEvent::Announced(precreate) ==> block_start(
            precreate.block_list@.len() as int,
        ) <= u64::MAX
    }

    /// Goes on with the block at `next`, or makes a file of the blocks where there is none left.
    pub open spec fn send_or_create(
        self,
        uploadid: Seq<char>,
        host: Seq<char>,
        parts: Seq<UploadPart>,
        next: int,
        progress: u64,
    ) -> (UploadRunView, UploadActionView) {
        if next < parts.len() {
            (
                UploadRunView {
                    stage: UploadStageView::Sending { uploadid, host, parts, next },
                    progress,
                    ..self
                },
                UploadActionView::Send {
                    part: parts[next],
                    request: part_request_of(self.plan, host, uploadid, parts[next].index as nat),
                    file_name: "part-"@ + numeral(parts[next].index as nat),
                },
            )
        } else {
            (
                UploadRunView { stage: UploadStageView::Creating, progress, ..self },
                UploadActionView::Create(create_request_of(self.plan, uploadid)),
            )
        }
    }

    /// What the upload asks for after an event, and how far it is then. An answer that nobody asked
    /// for is refused.
    pub open spec fn after(self, event: UploadEvent) -> Result<
        (UploadRunView, UploadActionView),
        ErrorView,
    > {
        match (self.stage, event) {
            (UploadStageView::Announcing, UploadEvent::Announced(precreate)) => match precreate.uploadid {
                Some(uploadid) => Ok(
                    (
                        UploadRunView {
                            stage: UploadStageView::Locating {
                                uploadid: uploadid@,
                                required: required_parts(
                                    precreate.block_list@,
                                    self.plan.parts as nat,
                                ),
                            },
                            ..self
                        },
                        UploadActionView::Locate {
                            uploadid: uploadid@,
                            request: locate_request_of(self.plan, uploadid@),
                        },
                    ),
                ),
                None => Err(ErrorView::Api("precreate response missing uploadid"@)),
            },
            (
                UploadStageView::Locating { uploadid, required },
                UploadEvent::Located(servers),
            ) => match (
                chosen_host(servers),
                blocks_error(self.plan.size as int, self.plan.parts as int, required),
            ) {
                (Err(error), _) => Err(error),
                (_, Some(error)) => Err(error),
                (Ok(host), None) => Ok(
                    self.send_or_create(
                        uploadid,
                        host,
                        Seq::new(
                            required.len(),
                            |i: int| part_at(self.plan.size as int, required, i),
                        ),
                        0,
                        completed_len(self.plan.size as int, required) as u64,
                    ),
                ),
            },
            (
                UploadStageView::Sending { uploadid, host, parts, next },
                UploadEvent::Sent,
            ) => Ok(self.send_or_create(uploadid, host, parts, next + 1, parts[next].progress)),
            (UploadStageView::Creating, UploadEvent::Created(created)) => Ok(
                (
                    UploadRunView { stage: UploadStageView::Finished, ..self },
                    UploadActionView::Finish(summary_of(self.plan, created)),
                ),
            ),
            _ => Err(ErrorView::Api("unexpected answer"@)),
        }
    }
}

impl UploadRun {
    /// An upload that has been announced.
    pub fn new(plan: UploadPlan) -> (result: UploadRun)
        requires
            block_start(plan.parts as int) <= u64::MAX,
        ensures
            result@ == (UploadRunView {
                plan: plan@,
                stage: UploadStageView::Announcing,
                progress: 0,
            }),
            result@.wf(),
    {
        UploadRun { plan, stage: UploadStage::Announcing, progress: 0 }
    }

    fn send_or_create(
        &mut self,
        uploadid: String,
        host: String,
        parts: Vec<UploadPart>,
        next: usize,
        progress: u64,
    ) -> (result: UploadAction)
        requires
            block_start(old(self)@.plan.parts as int) <= u64::MAX,
        ensures
            (final(self)@, result@) == old(self)@.send_or_create(
                uploadid@,
                host@,
                parts@,
                next as int,
                progress,
            ),
            final(self)@.wf(),
    {
        self.progress = progress;
        if next < parts.len() {
            let part = parts[next];
            let action = UploadAction::Send {
                part,
                request: self.plan.part_request(host.as_str(), uploadid.as_str(), part.index),
                file_name: part_file_name(part.index),
            };
            self.stage = UploadStage::Sending { uploadid, host, parts, next };
            action
        } else {
            self.stage = UploadStage::Creating;
            UploadAction::Create(self.plan.create_request(uploadid.as_str()))
        }
    }

    /// Takes an event, and says what the upload asks for next. After an error it stays where it is.
    pub fn step(&mut self, event: UploadEvent) -> (result: Result<UploadAction, Error>)
        requires
            old(self)@.wf(),
            old(self)@.takes(event),
        ensures
            final(self)@.wf(),
            match old(self)@.after(event) {
                Ok((run, action)) => result matches Ok(asked) && asked@ == action && final(self)@
                    == run,
                Err(error) => result matches Err(reported) && reported@ == error && final(self)@
                    == old(self)@,
            },
    {
        let mut stage = UploadStage::Creating;
        std::mem::swap(&mut stage, &mut self.stage);
        match (stage, event) {
            (UploadStage::Announcing, UploadEvent::Announced(precreate)) => {
                match self.plan.session(precreate) {
                    Ok(session) => {
                        let action = UploadAction::Locate {
                            uploadid: session.uploadid.clone(),
                            request: self.plan.locate_request(session.uploadid.as_str()),
                        };
                        self.stage = UploadStage::Locating { session };
                        Ok(action)
                    },
                    Err(error) => {
                        self.stage = UploadStage::Announcing;
                        Err(error)
                    },
                }
            },
            (UploadStage::Locating { session }, UploadEvent::Located(servers)) => {
                let host = match upload_host(&servers) {
                    Ok(host) => host,
                    Err(error) => {
                        self.stage = UploadStage::Locating { session };
                        return Err(error);
                    },
                };
                match upload_parts(
                    self.plan.size,
                    self.plan.parts,
                    session.required_parts.as_slice(),
                ) {
                    Ok(parts) => Ok(
                        self.send_or_create(session.uploadid, host, parts.parts, 0, parts.completed),
                    ),
                    Err(error) => {
                        self.stage = UploadStage::Locating { session };
                        Err(error)
                    },
                }
            },
            (UploadStage::Sending { uploadid, host, parts, next }, UploadEvent::Sent) => {
                let count: usize = parts.len();
                assert(next < count);
                let progress: u64 = parts[next].progress;
                Ok(self.send_or_create(uploadid, host, parts, next + 1, progress))
            },
            (UploadStage::Creating, UploadEvent::Created(created)) => {
                self.stage = UploadStage::Finished;
                Ok(UploadAction::Finish(self.plan.summary(created)))
            },
            (stage, _) => {
                self.stage = stage;
                Err(Error::Api("unexpected answer".to_owned()))
            },
        }
    }
}

/// An upload when `count` more blocks have been sent.
pub open spec fn after_sending(run: UploadRunView, count: nat) -> UploadRunView
    decreases count,
{
    if count == 0 {
        run
    } else {
        match after_sending(run, (count - 1) as nat).after(UploadEvent::Sent) {
            Ok((next, _)) => next,
            Err(_) => run,
        }
    }
}

/// An upload sends the blocks that the platform asks for one after the other, each once and in the
/// order of the answer, and makes a file of them when the last one has been sent, not before.
pub proof fn law_blocks_are_sent_before_the_file_is_made(
    run: UploadRunView,
    uploadid: Seq<char>,
    host: Seq<char>,
    parts: Seq<UploadPart>,
    count: nat,
)
    requires
        run.stage == (UploadStageView::Sending { uploadid, host, parts, next: 0 }),
        0 < count <= parts.len(),
    ensures
        after_sending(run, (count - 1) as nat).stage == (UploadStageView::Sending {
            uploadid,
            host,
            parts,
            next: count - 1,
        }),
        after_sending(run, count).progress == parts[count - 1].progress,
        match after_sending(run, (count - 1) as nat).after(UploadEvent::Sent) {
            Ok((_, UploadActionView::Send { part, .. })) => count < parts.len() && part
                == parts[count as int],
            Ok((_, UploadActionView::Create(request))) => count == parts.len() && request
                == create_request_of(run.plan, uploadid),
            _ => false,
        },
    decreases count,
{
    lemma_sending(run, uploadid, host, parts, (count - 1) as nat);
}

proof fn lemma_sending(
    run: UploadRunView,
    uploadid: Seq<char>,
    host: Seq<char>,
    parts: Seq<UploadPart>,
    count: nat,
)
    requires
        run.stage == (UploadStageView::Sending { uploadid, host, parts, next: 0 }),
        count < parts.len(),
    ensures
        after_sending(run, count).stage == (UploadStageView::Sending {
            uploadid,
            host,
            parts,
            next: count as int,
        }),
        after_sending(run, count).plan == run.plan,
    decreases count,
{
    if count > 0 {
        lemma_sending(run, uploadid, host, parts, (count - 1) as nat);
    }
}

// Downloads.

/// A download before its content comes: what is looked for, and how much of it is here already.
#[derive(Debug, Clone, PartialEq, Eq)]
pub struct DownloadRun {
    pub lookup: EntryLookup,
    pub resume_from: u64,
}

/// The normalized path of what is to be downloaded, where it has a name.
pub open spec fn download_source(remote_path: Seq<char>) -> Result<Seq<char>, ErrorView> {
    match normalized_remote(remote_path) {
        Err(error) => Err(error),
        Ok(path) => match remote_name(path) {
            Some(_) => Ok(path),
            None => Err(ErrorView::InvalidRemotePath(path)),
        },
    }
}

impl DownloadRun {
    /// The run looks for its path in the directory above it.
    pub open spec fn wf(&self) -> bool {
        &&& self.lookup.parent@ == remote_parent(self.lookup.remote_path@)
        &&& remote_name(self.lookup.remote_path@) == Some(self.lookup.name@)
    }

    /// A download of a remote file, of which `resume_from` bytes are here already.
    pub fn new(remote_path: &str, resume_from: u64) -> (result: Result<DownloadRun, Error>)
        ensures
            match download_source(remote_path@) {
                Ok(path) => result matches Ok(run) && run.wf() && run.lookup.remote_path@ == path
                    && run.resume_from == resume_from,
                Err(error) => result matches Err(reported) && reported@ == error,
            },
    {
        let path = match normalize_remote_path(remote_path) {
            Ok(path) => path,
            Err(error) => return Err(error),
        };
        match resolve_entry_by_path(path.as_str()) {
            Ok(lookup) => Ok(DownloadRun { lookup, resume_from }),
            Err(error) => Err(error),
        }
    }

    /// The question for the entries of the directory.
    pub fn list_request(&self, client: &PanClient, access_token: &str) -> (result: Result<
        HttpRequest,
        Error,
    >)
        requires
            self.wf(),
        ensures
            outcome(result) == (match normalized_remote(remote_parent(self.lookup.remote_path@)) {
                Ok(dir) => Ok(list_request(dir, access_token@)),
                Err(error) => Err(error),
            }),
    {
        client.list_dir(self.lookup.parent.as_str(), access_token)
    }

    /// The question for what the platform knows of the file, with the link to its content, once the
    /// entries of the directory are known.
    pub fn metadata_request(&self, entries: Vec<RemoteEntry>, access_token: &str) -> (result: Result<
        HttpRequest,
        Error,
    >)
        ensures
            match first_match(entries@, self.lookup.remote_path@, self.lookup.name@) {
                Some(entry) => result matches Ok(request) && request@ == filemetas_request(
                    entry.fs_id,
                    true,
                    access_token@,
                ),
                None => result matches Err(error) && error@ == ErrorView::Api(
                    "remote path not found: "@ + self.lookup.remote_path@,
                ),
            },
    {
        match self.lookup.find(entries) {
            Ok(entry) => get_file_metadata(&entry, true, access_token),
            Err(error) => Err(error),
        }
    }

    /// Once the entry has been found in the directory and described: what the download has to do.
    pub fn plan(&self, client: &PanClient, info: Vec<FileMetaEntry>, access_token: &str) -> (result:
        Result<(FileMetaEntry, DownloadPlan), Error>)
        ensures
            if info@.len() == 0 {
                result matches Err(error) && error@ == ErrorView::Api(
                    "no metadata returned for "@ + self.lookup.remote_path@,
                )
            } else {
                match download_plan(info@[0], self.resume_from, access_token@) {
                    Ok(plan) => result matches Ok((metadata, asked)) && metadata == info@[0]
                        && asked@ == plan,
                    Err(error) => result matches Err(reported) && reported@ == error,
                }
            },
    {
        let metadata = match first_metadata(info, self.lookup.remote_path.as_str()) {
            Ok(metadata) => metadata,
            Err(error) => return Err(error),
        };
        match client.download_file(&metadata, self.resume_from, access_token) {
            Ok(plan) => Ok((metadata, plan)),
            Err(error) => Err(error),
        }
    }
}

} // verus!
