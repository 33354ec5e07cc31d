//! What holds of uploads, from the announcement to the file that is made of the blocks.
use vstd::prelude::*;
use vstd::utf8::encode_utf8;

use super::{after_steps, in_one, lemma_in_one_push};
use crate::api::{
    all_servers, block_error, block_start, blocks_error, blocks_len, first_https,
    normalize_remote_path, part_at, pick_https_upload_host, server_names, upload_host,
    upload_part_len, upload_parts, CreateResponse, LocateUploadResponse, OnDuplicate, PanClient,
    PrecreateResponse, UploadPart, UploadParts, UploadPlan, UploadRequest, UploadSession, UploadSummary,
};
use crate::config::ConfigValue;
use crate::error::{outcome, Error, ErrorView};
use crate::files::{step_views, FileStep};
use crate::http::{HttpRequest, Method};
use crate::json::{json_strings, text_views};
use crate::path::{lossy_text, parent_of, same_path, LocalPath};
use crate::session::{
    UploadAction, UploadActionView, UploadEvent, UploadRun, UploadRunView, UploadStageView,
};
use crate::text::{numeral, trimmed};
use crate::transfer::{
    block_count, is_plain_key, md5_hex, resume_uploadid, upload_request, BlockList, PreparedUpload,
    TransferPlanner, UploadResumeState, UploadSource, UploadStateStore,
};

verus! {

// What is announced.

/// An upload is announced under the path that it goes to, with its size, the digests of its blocks and
/// what becomes of a file that is there already; and with the session that it goes on with, if there is
/// one. What is said later is said of the same path, size, digests and policy.
pub proof fn law_upload_is_announced_as_asked(
    client: PanClient,
    request: UploadRequest,
    access_token: &str,
    normalized: Result<String, Error>,
    result: Result<(UploadPlan, HttpRequest), Error>,
)
    requires
        call_ensures(normalize_remote_path, (request.remote_path,), normalized),
        call_ensures(PanClient::upload_file, (&client, &request, access_token), result),
    ensures
        normalized matches Err(error) ==> result is Err && result->Err_0@ == error@,
        normalized is Ok ==> result is Ok,
        normalized is Ok ==> ({
            let plan = result->Ok_0.0;
            &&& plan.access_token@ == access_token@
            &&& plan.remote_path@ == normalized->Ok_0@
            &&& plan.block_list_json@ == json_strings(text_views(request.block_list@))
            &&& plan.size == request.size
            &&& plan.encrypted == request.encrypted
            &&& plan.parts == request.block_list@.len()
            &&& plan.ondup == request.ondup
        }),
        normalized is Ok ==> ({
            let first = result->Ok_0.1@;
            let form = seq![
                ("path"@, normalized->Ok_0@),
                ("size"@, numeral(request.size as nat)),
                ("isdir"@, "0"@),
                ("autoinit"@, "1"@),
                (
                    "rtype"@,
                    match request.ondup {
                        OnDuplicate::Fail => "0"@,
                        OnDuplicate::Overwrite => "3"@,
                    },
                ),
                ("block_list"@, json_strings(text_views(request.block_list@))),
            ];
            &&& first.method == Method::Post
            &&& first.url == "https://pan.baidu.com/rest/2.0/xpan/file"@
            &&& first.query == seq![("method"@, "precreate"@), ("access_token"@, access_token@)]
            &&& first.form == (match request.resume_uploadid {
                Some(uploadid) if uploadid@.len() > 0 => form.push(("uploadid"@, uploadid@)),
                _ => form,
            })
            &&& first.range is None
        }),
{
    if normalized is Ok {
        let plan = result->Ok_0.0@;
        assert(plan.block_list_json == json_strings(text_views(request.block_list@)));
    }
    assert(request.block_list.len() == request.block_list@.len());
}

/// A file is overwritten where the user forces it, and only there.
pub proof fn law_force_overwrites(force: bool, policy: OnDuplicate, rtype: &'static str)
    requires
        call_ensures(OnDuplicate::from_force, (force,), policy),
        call_ensures(OnDuplicate::rtype, (&policy,), rtype),
    ensures
        force ==> rtype@ == "3"@,
        !force ==> rtype@ == "0"@,
{
}

// What is asked for and sent.

/// The platform's answer names the session, and the blocks that it lacks; where it names none it lacks
/// all of them, from the first to the last.
pub proof fn law_session_is_that_of_the_answer(
    plan: UploadPlan,
    precreate: PrecreateResponse,
    result: Result<UploadSession, Error>,
)
    requires
        call_ensures(UploadPlan::session, (&plan, precreate), result),
    ensures
        match precreate.uploadid {
            Some(uploadid) => {
                &&& result is Ok
                &&& result->Ok_0.uploadid@ == uploadid@
                &&& precreate.block_list@.len() > 0 ==> result->Ok_0.required_parts@
                    == precreate.block_list@
                &&& precreate.block_list@.len() == 0 ==> result->Ok_0.required_parts@.len()
                    == plan.parts && forall|i: int|
                    0 <= i < plan.parts ==> #[trigger] result->Ok_0.required_parts@[i] == i
            },
            None => result matches Err(error) && error@ == ErrorView::Api(
                "precreate response missing uploadid"@,
            ),
        },
{
}

/// Each request of an upload carries its session, its path and the token of the user, and is sent where
/// it belongs: the question for servers to the platform, a block to the server, with its number, and
/// the request for the file to the platform, with what was announced.
pub proof fn law_requests_of_an_upload(
    plan: UploadPlan,
    uploadid: &str,
    host: &str,
    partseq: usize,
    locate: HttpRequest,
    part: HttpRequest,
    create: HttpRequest,
)
    requires
        call_ensures(UploadPlan::locate_request, (&plan, uploadid), locate),
        call_ensures(UploadPlan::part_request, (&plan, host, uploadid, partseq), part),
        call_ensures(UploadPlan::create_request, (&plan, uploadid), create),
    ensures
        locate@.method == Method::Get,
        locate@.url == "https://d.pcs.baidu.com/rest/2.0/pcs/file"@,
        locate@.query == seq![
            ("method"@, "locateupload"@),
            ("appid"@, "250528"@),
            ("access_token"@, plan.access_token@),
            ("path"@, plan.remote_path@),
            ("uploadid"@, uploadid@),
            ("upload_version"@, "2.0"@),
        ],
        locate@.form.len() == 0,
        locate@.range is None,
        part@.method == Method::Post,
        part@.url == host@ + "/rest/2.0/pcs/superfile2"@,
        part@.query == seq![
            ("method"@, "upload"@),
            ("type"@, "tmpfile"@),
            ("path"@, plan.remote_path@),
            ("uploadid"@, uploadid@),
            ("partseq"@, numeral(partseq as nat)),
            ("access_token"@, plan.access_token@),
        ],
        part@.form.len() == 0,
        part@.range is None,
        create@.method == Method::Post,
        create@.url == "https://pan.baidu.com/rest/2.0/xpan/file"@,
        create@.query == seq![("method"@, "create"@), ("access_token"@, plan.access_token@)],
        create@.form == seq![
            ("path"@, plan.remote_path@),
            ("size"@, numeral(plan.size as nat)),
            ("isdir"@, "0"@),
            (
                "rtype"@,
                match plan.ondup {
                    OnDuplicate::Fail => "0"@,
                    OnDuplicate::Overwrite => "3"@,
                },
            ),
            ("uploadid"@, uploadid@),
            ("block_list"@, plan.block_list_json@),
        ],
        create@.range is None,
{
}

/// The summary says what the platform says of the file, and what was asked for where it says nothing.
pub proof fn law_summary_is_that_of_the_answer(
    plan: UploadPlan,
    created: CreateResponse,
    result: UploadSummary,
)
    requires
        call_ensures(UploadPlan::summary, (&plan, created), result),
    ensures
        result.path@ == (match created.path {
            Some(path) => path@,
            None => plan.remote_path@,
        }),
        result.fs_id == created.fs_id,
        result.size == (match created.size {
            Some(size) => size,
            None => plan.size,
        }),
        match (created.md5, result.md5) {
            (Some(theirs), Some(ours)) => ours@ == theirs@,
            (None, None) => true,
            _ => false,
        },
        result.encrypted == plan.encrypted,
        result.parts == plan.parts,
{
    assert(result@.md5 is Some <==> created.md5 is Some);
}

// A whole upload.

/// What is asked for is asked for the session `uploadid` and the path `path`; and a block that is sent
/// goes out under its own number.
pub open spec fn is_for_session(
    action: UploadActionView,
    uploadid: Seq<char>,
    path: Seq<char>,
) -> bool {
    match action {
        UploadActionView::Locate { uploadid: kept, request } => {
            &&& kept == uploadid
            &&& request.query.contains(("uploadid"@, uploadid))
            &&& request.query.contains(("path"@, path))
        },
        UploadActionView::Send { part, request, file_name } => {
            &&& request.query.contains(("uploadid"@, uploadid))
            &&& request.query.contains(("path"@, path))
            &&& request.query.contains(("partseq"@, numeral(part.index as nat)))
            &&& file_name == "part-"@ + numeral(part.index as nat)
        },
        UploadActionView::Create(request) => {
            &&& request.form.contains(("uploadid"@, uploadid))
            &&& request.form.contains(("path"@, path))
        },
        UploadActionView::Finish(_) => true,
    }
}

/// The upload is that of the session, as far as it still remembers it.
pub open spec fn is_in_session(run: UploadRunView, uploadid: Seq<char>, path: Seq<char>) -> bool {
    &&& run.plan.remote_path == path
    &&& match run.stage {
        UploadStageView::Announcing => false,
        UploadStageView::Locating { uploadid: known, .. } => known == uploadid,
        UploadStageView::Sending { uploadid: known, .. } => known == uploadid,
        _ => true,
    }
}

proof fn lemma_step_in_session(
    run: UploadRunView,
    event: UploadEvent,
    uploadid: Seq<char>,
    path: Seq<char>,
)
    requires
        is_in_session(run, uploadid, path),
        run.after(event) is Ok,
    ensures
        is_in_session(run.after(event)->Ok_0.0, uploadid, path),
        is_for_session(run.after(event)->Ok_0.1, uploadid, path),
{
    let (next, action) = run.after(event)->Ok_0;
    match action {
        UploadActionView::Send { part, request, .. } => {
            assert(request.query[3] == ("uploadid"@, uploadid));
            assert(request.query[2] == ("path"@, path));
            assert(request.query[4] == ("partseq"@, numeral(part.index as nat)));
        },
        UploadActionView::Create(request) => {
            assert(request.form[4] == ("uploadid"@, uploadid));
            assert(request.form[0] == ("path"@, path));
        },
        _ => {},
    }
}

/// An upload after events that it took, or nothing where it refused one.
pub open spec fn after_events(run: UploadRunView, events: Seq<UploadEvent>) -> Option<UploadRunView>
    decreases events.len(),
{
    if events.len() == 0 {
        Some(run)
    } else {
        match after_events(run, events.drop_last()) {
            Some(between) => match between.after(events.last()) {
                Ok((next, _)) => Some(next),
                Err(_) => None,
            },
            None => None,
        }
    }
}

proof fn lemma_events_in_session(
    run: UploadRunView,
    events: Seq<UploadEvent>,
    uploadid: Seq<char>,
    path: Seq<char>,
)
    requires
        is_in_session(run, uploadid, path),
        after_events(run, events) is Some,
    ensures
        is_in_session(after_events(run, events)->0, uploadid, path),
    decreases events.len(),
{
    if events.len() > 0 {
        lemma_events_in_session(run, events.drop_last(), uploadid, path);
        lemma_step_in_session(
            after_events(run, events.drop_last())->0,
            events.last(),
            uploadid,
            path,
        );
    }
}

/// From the answer to the announcement on, everything that an upload asks for, whatever happens, is
/// asked for the session that the answer opened and for the path that was announced.
pub proof fn law_upload_stays_in_its_session(
    run: UploadRunView,
    precreate: PrecreateResponse,
    uploadid: Seq<char>,
    events: Seq<UploadEvent>,
    event: UploadEvent,
)
    requires
        run.stage is Announcing,
        precreate.uploadid matches Some(id) && id@ == uploadid,
    ensures
        ({
            let opened = run.after(UploadEvent::Announced(precreate));
            &&& opened is Ok
            &&& is_for_session(opened->Ok_0.1, uploadid, run.plan.remote_path)
            &&& opened->Ok_0.1 is Locate
            &&& match after_events(opened->Ok_0.0, events) {
                Some(later) => later.after(event) matches Ok((_, action)) ==> is_for_session(
                    action,
                    uploadid,
                    run.plan.remote_path,
                ),
                None => true,
            }
        }),
{
    let (first, action) = run.after(UploadEvent::Announced(precreate))->Ok_0;
    assert(action->Locate_request.query[4] == ("uploadid"@, uploadid));
    assert(action->Locate_request.query[3] == ("path"@, run.plan.remote_path));
    if after_events(first, events) is Some {
        lemma_events_in_session(first, events, uploadid, run.plan.remote_path);
        let later = after_events(first, events)->0;
        if later.after(event) is Ok {
            lemma_step_in_session(later, event, uploadid, run.plan.remote_path);
        }
    }
}

/// A step of an upload that knows its session asks for what is asked for that session, and knows it
/// afterwards; the step that takes the answer to the announcement takes the session from it.
pub proof fn law_step_stays_in_its_session(
    run: &mut UploadRun,
    event: UploadEvent,
    result: Result<UploadAction, Error>,
    uploadid: Seq<char>,
)
    requires
        call_ensures(UploadRun::step, (run, event), result),
        is_in_session(old(run)@, uploadid, old(run)@.plan.remote_path) || (old(run)@.stage
            is Announcing && (event matches UploadEvent::Announced(precreate) ==> precreate.uploadid matches Some(id)
            ==> id@ == uploadid)),
        result is Ok,
    ensures
        is_for_session(result->Ok_0@, uploadid, old(run)@.plan.remote_path),
        is_in_session(final(run)@, uploadid, old(run)@.plan.remote_path),
        final(run)@.plan == old(run)@.plan,
{
    if old(run)@.stage is Announcing {
        let (next, action) = old(run)@.after(event)->Ok_0;
        assert(action->Locate_request.query[4] == ("uploadid"@, uploadid));
        assert(action->Locate_request.query[3] == ("path"@, old(run)@.plan.remote_path));
    } else {
        lemma_step_in_session(old(run)@, event, uploadid, old(run)@.plan.remote_path);
    }
}

/// An upload that is refused an answer, or gets one that it did not ask for, stays where it is.
pub proof fn law_refused_step_changes_nothing(
    run: &mut UploadRun,
    event: UploadEvent,
    result: Result<UploadAction, Error>,
)
    requires
        call_ensures(UploadRun::step, (run, event), result),
    ensures
        result is Err ==> final(run)@ == old(run)@,
        result is Ok ==> match (old(run)@.stage, event) {
            (UploadStageView::Announcing, UploadEvent::Announced(_)) => true,
            (UploadStageView::Locating { .. }, UploadEvent::Located(_)) => true,
            (UploadStageView::Sending { .. }, UploadEvent::Sent) => true,
            (UploadStageView::Creating, UploadEvent::Created(_)) => true,
            _ => false,
        },
{
}

/// The answer to the announcement opens the session that it names, with the blocks that are lacking.
pub proof fn law_answer_opens_the_session(
    run: &mut UploadRun,
    precreate: PrecreateResponse,
    session: Result<UploadSession, Error>,
    result: Result<UploadAction, Error>,
)
    requires
        call_ensures(UploadRun::step, (run, UploadEvent::Announced(precreate)), result),
        call_ensures(UploadPlan::session, (&old(run).plan, precreate), session),
        old(run)@.stage is Announcing,
    ensures
        final(run)@.progress == old(run)@.progress,
        match session {
            Ok(opened) => {
                &&& result is Ok
                &&& result->Ok_0@ is Locate
                &&& final(run)@.stage == (UploadStageView::Locating {
                    uploadid: opened.uploadid@,
                    required: opened.required_parts@,
                })
            },
            Err(error) => result is Err && result->Err_0@ == error@,
        },
{
}

/// When the servers are known the first block that the platform lacks is sent, to the first server that
/// is reached over HTTPS; where it lacks none, the file is made at once. What cannot be sent is
/// reported.
pub proof fn law_first_block_is_sent_first(
    run: &mut UploadRun,
    servers: LocateUploadResponse,
    uploadid: Seq<char>,
    required: &[usize],
    host: Result<String, Error>,
    parts: Result<UploadParts, Error>,
    result: Result<UploadAction, Error>,
)
    requires
        call_ensures(UploadRun::step, (run, UploadEvent::Located(servers)), result),
        call_ensures(upload_host, (&servers,), host),
        call_ensures(upload_parts, (old(run).plan.size, old(run).plan.parts, required), parts),
        old(run)@.stage == (UploadStageView::Locating { uploadid, required: required@ }),
    ensures
        match (host, parts) {
            (Err(error), _) => result is Err && result->Err_0@ == error@,
            (Ok(_), Err(error)) => result is Err && result->Err_0@ == error@,
            (Ok(server), Ok(sized)) => {
                &&& result is Ok
                &&& final(run)@.progress == sized.completed
                &&& sized.parts@.len() == 0 ==> result->Ok_0@ is Create && final(run)@.stage
                    is Creating
                &&& sized.parts@.len() > 0 ==> {
                    &&& result->Ok_0@ matches UploadActionView::Send { part, request, .. }
                    &&& part == sized.parts@[0]
                    &&& request.url == server@ + "/rest/2.0/pcs/superfile2"@
                    &&& final(run)@.stage == (UploadStageView::Sending {
                        uploadid,
                        host: server@,
                        parts: sized.parts@,
                        next: 0,
                    })
                }
            },
        },
{
    if parts is Ok {
        let size = old(run).plan.size as int;
        assert(parts->Ok_0.parts@ =~= Seq::new(
            required@.len(),
            |i: int| part_at(size, required@, i),
        ));
    }
}

/// When a block has been sent the next one is, to the same server, and when the last has been sent the
/// file is made, not before. Until then no block is left out and none is sent again.
pub proof fn law_blocks_are_sent_in_order(
    run: &mut UploadRun,
    uploadid: Seq<char>,
    host: Seq<char>,
    parts: Seq<UploadPart>,
    next: int,
    result: Result<UploadAction, Error>,
)
    requires
        call_ensures(UploadRun::step, (run, UploadEvent::Sent), result),
        old(run)@.stage == (UploadStageView::Sending { uploadid, host, parts, next }),
        0 <= next < parts.len(),
    ensures
        result is Ok,
        final(run)@.progress == parts[next].progress,
        match result->Ok_0@ {
            UploadActionView::Send { part, request, .. } => {
                &&& next + 1 < parts.len()
                &&& part == parts[next + 1]
                &&& request.url == host + "/rest/2.0/pcs/superfile2"@
                &&& final(run)@.stage == (UploadStageView::Sending {
                    uploadid,
                    host,
                    parts,
                    next: next + 1,
                })
            },
            UploadActionView::Create(_) => next + 1 == parts.len() && final(run)@.stage is Creating,
            _ => false,
        },
{
}

/// Where an upload starts, and where it ends.
pub proof fn law_upload_starts_and_ends(
    plan: UploadPlan,
    fresh: UploadRun,
    run: &mut UploadRun,
    created: CreateResponse,
    summary: UploadSummary,
    result: Result<UploadAction, Error>,
)
    requires
        call_ensures(UploadRun::new, (plan,), fresh),
        call_ensures(UploadRun::step, (run, UploadEvent::Created(created)), result),
        old(run)@.stage is Creating,
        call_ensures(UploadPlan::summary, (&old(run).plan, created), summary),
    ensures
        fresh@.stage is Announcing,
        fresh@.plan == plan@,
        fresh@.progress == 0,
        result is Ok,
        result->Ok_0@ == UploadActionView::Finish(summary@),
        final(run)@.stage is Finished,
{
}

// Blocks.

/// A block of a file is 4 MiB long, but for the last one, which is what is left. One that the file does
/// not have is refused.
pub proof fn law_block_length(
    total_size: u64,
    total_parts: usize,
    partseq: usize,
    result: Result<usize, Error>,
)
    requires
        call_ensures(upload_part_len, (total_size, total_parts, partseq), result),
    ensures
        if partseq >= total_parts {
            result matches Err(error) && error@ == ErrorView::Api(
                "precreate returned unexpected part index "@ + numeral(partseq as nat)
                    + ", total parts="@ + numeral(total_parts as nat),
            )
        } else if 4_194_304 * partseq > total_size {
            result matches Err(error) && error@ == ErrorView::Api(
                "computed upload offset "@ + numeral((4_194_304 * partseq) as nat)
                    + " exceeds file size "@ + numeral(total_size as nat),
            )
        } else {
            &&& result is Ok
            &&& 4_194_304 * (partseq + 1) <= total_size ==> result->Ok_0 == 4_194_304
            &&& 4_194_304 * (partseq + 1) > total_size ==> result->Ok_0 == total_size - 4_194_304
                * partseq
        },
{
}

/// How many bytes the first `count` of the parts hold.
pub open spec fn parts_len(parts: Seq<UploadPart>, count: int) -> int
    decreases count,
{
    if count <= 0 {
        0
    } else {
        parts_len(parts, count - 1) + parts[count - 1].len
    }
}

proof fn lemma_parts_len(size: int, total: int, required: Seq<usize>, parts: Seq<UploadPart>, count: int)
    requires
        size <= u64::MAX,
        0 <= count <= required.len(),
        blocks_error(size, total, required) is None,
        parts == Seq::new(required.len(), |i: int| part_at(size, required, i)),
    ensures
        parts_len(parts, count) == blocks_len(size, required.take(count)),
    decreases count,
{
    if count > 0 {
        lemma_parts_len(size, total, required, parts, count - 1);
        super::lemma_blocks_in_range(size, total, required);
        assert(required.take(count).drop_last() =~= required.take(count - 1));
        assert(required.take(count).last() == required[count - 1]);
        assert(block_start(required[count - 1] as int) <= size);
    } else {
        assert(required.take(0) =~= Seq::<usize>::empty());
    }
}

/// The parts to send are the blocks that the platform lacks, in its order. The progress starts with the
/// bytes that it has, grows by each part that is sent, and where no block is asked for twice ends with
/// the size of the file.
pub proof fn law_parts_are_the_blocks_asked_for(
    total_size: u64,
    total_parts: usize,
    required: &[usize],
    result: Result<UploadParts, Error>,
)
    requires
        call_ensures(upload_parts, (total_size, total_parts, required), result),
        4_194_304 * total_parts <= u64::MAX,
        4_194_304 * required@.len() <= u64::MAX,
        result is Ok,
    ensures
        ({
            let parts = result->Ok_0.parts@;
            let total = parts_len(parts, parts.len() as int);
            &&& parts.len() == required@.len()
            &&& forall|i: int|
                0 <= i < parts.len() ==> (#[trigger] parts[i]).index == required@[i]
                    && parts[i].start == 4_194_304 * required@[i] && parts[i].start + parts[i].len
                    <= total_size && (parts[i].len == 4_194_304 || parts[i].start + parts[i].len
                    == total_size)
            &&& result->Ok_0.completed == (if total <= total_size {
                total_size - total
            } else {
                0
            })
            &&& forall|i: int|
                0 <= i < parts.len() ==> (#[trigger] parts[i]).progress == result->Ok_0.completed
                    + parts_len(parts, i + 1)
            &&& required@.no_duplicates() ==> total <= total_size
        }),
{
    let size = total_size as int;
    let count = total_parts as int;
    let parts = result->Ok_0.parts@;
    super::lemma_blocks_in_range(size, count, required@);
    lemma_parts_len(size, count, required@, parts, parts.len() as int);
    assert(required@.take(required@.len() as int) =~= required@);
    assert forall|i: int| 0 <= i < parts.len() implies (#[trigger] parts[i]).index == required@[i]
        && parts[i].start == 4_194_304 * required@[i] && parts[i].start + parts[i].len <= total_size
        && (parts[i].len == 4_194_304 || parts[i].start + parts[i].len == total_size) by {
        assert(block_start(required@[i] as int) <= size);
    }
    let total = parts_len(parts, parts.len() as int);
    if required@.no_duplicates() {
        super::lemma_distinct_blocks(size, total_parts as nat, required@);
    }
    assert forall|i: int| 0 <= i < parts.len() implies (#[trigger] parts[i]).progress
        == result->Ok_0.completed + parts_len(parts, i + 1) by {
        lemma_parts_len(size, count, required@, parts, i + 1);
        lemma_parts_grow(parts, i + 1, parts.len() as int);
        lemma_parts_grow(parts, 0, i + 1);
        lemma_parts_fit(parts, i + 1);
    }
}

proof fn lemma_parts_fit(parts: Seq<UploadPart>, count: int)
    requires
        0 <= count <= parts.len(),
        forall|i: int| 0 <= i < parts.len() ==> (#[trigger] parts[i]).len <= 4_194_304,
    ensures
        parts_len(parts, count) <= 4_194_304 * count,
    decreases count,
{
    if count > 0 {
        lemma_parts_fit(parts, count - 1);
        assert(parts[count - 1].len <= 4_194_304);
    }
}

proof fn lemma_first_error(size: int, total: int, required: Seq<usize>)
    ensures
        match blocks_error(size, total, required) {
            Some(error) => exists|i: int|
                {
                    &&& 0 <= i < required.len()
                    &&& block_error(size, total, #[trigger] required[i] as int) == Some(error)
                    &&& forall|j: int|
                        0 <= j < i ==> block_error(size, total, #[trigger] required[j] as int) is None
                },
            None => forall|j: int|
                0 <= j < required.len() ==> block_error(
                    size,
                    total,
                    #[trigger] required[j] as int,
                ) is None,
        },
    decreases required.len(),
{
    if required.len() > 0 {
        let before = required.drop_last();
        lemma_first_error(size, total, before);
        assert forall|j: int| 0 <= j < before.len() implies before[j] == #[trigger] required[j] by {}
        match blocks_error(size, total, before) {
            Some(error) => {
                let i = choose|i: int|
                    {
                        &&& 0 <= i < before.len()
                        &&& block_error(size, total, #[trigger] before[i] as int) == Some(error)
                        &&& forall|j: int|
                            0 <= j < i ==> block_error(
                                size,
                                total,
                                #[trigger] before[j] as int,
                            ) is None
                    };
                assert(required[i] == before[i]);
                assert forall|j: int| 0 <= j < i implies block_error(
                    size,
                    total,
                    #[trigger] required[j] as int,
                ) is None by {
                    assert(required[j] == before[j]);
                }
            },
            None => {
                assert forall|j: int| 0 <= j < before.len() implies block_error(
                    size,
                    total,
                    #[trigger] required[j] as int,
                ) is None by {
                    assert(required[j] == before[j]);
                }
                let last = required.len() - 1;
                assert(required[last] == required.last());
            },
        }
    }
}

/// Where the platform asks for blocks that the file does not have, the first of them is reported as it
/// is by itself; where it asks for none such, there are parts.
pub proof fn law_first_wrong_block_is_reported(
    total_size: u64,
    total_parts: usize,
    required: &[usize],
    result: Result<UploadParts, Error>,
)
    requires
        call_ensures(upload_parts, (total_size, total_parts, required), result),
    ensures
        ({
            let wrong = |index: usize|
                index >= total_parts || 4_194_304 * index > total_size;
            match result {
                Ok(_) => forall|i: int| 0 <= i < required@.len() ==> !wrong(#[trigger] required@[i]),
                Err(error) => exists|i: int|
                    {
                        &&& 0 <= i < required@.len()
                        &&& wrong(#[trigger] required@[i])
                        &&& forall|j: int| 0 <= j < i ==> !wrong(#[trigger] required@[j])
                        &&& error@ == ErrorView::Api(
                            if required@[i] >= total_parts {
                                "precreate returned unexpected part index "@ + numeral(
                                    required@[i] as nat,
                                ) + ", total parts="@ + numeral(total_parts as nat)
                            } else {
                                "computed upload offset "@ + numeral(
                                    (4_194_304 * required@[i]) as nat,
                                ) + " exceeds file size "@ + numeral(total_size as nat)
                            },
                        )
                    },
            }
        }),
{
    let size = total_size as int;
    let total = total_parts as int;
    let wrong = |index: usize| index >= total_parts || 4_194_304 * index > total_size;
    lemma_first_error(size, total, required@);
    match result {
        Ok(_) => {
            assert forall|i: int| 0 <= i < required@.len() implies !wrong(
                #[trigger] required@[i],
            ) by {
                assert(block_error(size, total, required@[i] as int) is None);
            }
        },
        Err(error) => {
            let i = choose|i: int|
                {
                    &&& 0 <= i < required@.len()
                    &&& block_error(size, total, #[trigger] required@[i] as int) == Some(error@)
                    &&& forall|j: int|
                        0 <= j < i ==> block_error(
                            size,
                            total,
                            #[trigger] required@[j] as int,
                        ) is None
                };
            assert forall|j: int| 0 <= j < i implies !wrong(#[trigger] required@[j]) by {
                assert(block_error(size, total, required@[j] as int) is None);
            }
            assert(wrong(required@[i]));
        },
    }
}

proof fn lemma_parts_grow(parts: Seq<UploadPart>, a: int, b: int)
    requires
        0 <= a <= b <= parts.len(),
    ensures
        parts_len(parts, a) <= parts_len(parts, b),
    decreases b - a,
{
    if a < b {
        lemma_parts_grow(parts, a, b - 1);
    }
}

/// The block of a file at `i`: 4 MiB of it, or what is left.
pub open spec fn block_of(content: Seq<u8>, i: int) -> Seq<u8> {
    content.subrange(
        4_194_304 * i,
        if 4_194_304 * (i + 1) < content.len() {
            4_194_304 * (i + 1)
        } else {
            content.len() as int
        },
    )
}

/// How many blocks of 4 MiB hold a file. One without content has one block, without content.
pub open spec fn blocks_of(len: nat) -> nat {
    if len == 0 {
        1
    } else if len % 4_194_304 == 0 {
        len / 4_194_304
    } else {
        len / 4_194_304 + 1
    }
}

proof fn lemma_blocks_join(content: Seq<u8>, count: nat)
    requires
        count <= blocks_of(content.len()),
    ensures
        in_one(Seq::new(count, |i: int| block_of(content, i))) == content.subrange(
            0,
            if 4_194_304 * count < content.len() {
                4_194_304 * count as int
            } else {
                content.len() as int
            },
        ),
    decreases count,
{
    let blocks = Seq::new(count, |i: int| block_of(content, i));
    if count > 0 {
        let fewer = (count - 1) as nat;
        lemma_blocks_join(content, fewer);
        assert(blocks.drop_last() =~= Seq::new(fewer, |i: int| block_of(content, i)));
        lemma_in_one_push(blocks.drop_last(), blocks.last());
        assert(blocks.drop_last().push(blocks.last()) =~= blocks);
        assert(in_one(blocks) =~= content.subrange(
            0,
            if 4_194_304 * count < content.len() {
                4_194_304 * count as int
            } else {
                content.len() as int
            },
        ));
    } else {
        assert(blocks =~= Seq::<Seq<u8>>::empty());
        assert(in_one(blocks) =~= content.subrange(0, 0));
    }
}

/// The digests of a file are those of its blocks of 4 MiB, in order, and the blocks put together again
/// are the file.
pub proof fn law_digests_are_of_the_blocks(
    planner: TransferPlanner,
    source: &[u8],
    result: Vec<String>,
)
    requires
        call_ensures(TransferPlanner::block_list, (&planner, source), result),
    ensures
        result@.len() == blocks_of(source@.len()),
        forall|i: int|
            0 <= i < result@.len() ==> (#[trigger] result@[i])@ == md5_hex(block_of(source@, i)),
        in_one(Seq::new(blocks_of(source@.len()), |i: int| block_of(source@, i))) == source@,
{
    let texts = text_views(result@);
    assert(texts.len() == result@.len());
    assert(block_count(source@.len()) == blocks_of(source@.len()));
    assert forall|i: int| 0 <= i < result@.len() implies (#[trigger] result@[i])@ == md5_hex(
        block_of(source@, i),
    ) by {
        assert(texts[i] == result@[i]@);
        assert(crate::transfer::block_content(source@, i) =~= block_of(source@, i));
    }
    lemma_blocks_join(source@, blocks_of(source@.len()));
    assert(source@.subrange(0, source@.len() as int) =~= source@);
}

/// The part of a block that is sent is the block whose digest was announced: a part starts and ends
/// where the block with its number does.
pub proof fn law_parts_are_blocks(content: Seq<u8>, part: UploadPart)
    requires
        part.start == 4_194_304 * part.index,
        part.start <= content.len(),
        part.len == (if content.len() - part.start < 4_194_304 {
            content.len() - part.start
        } else {
            4_194_304
        }),
    ensures
        content.subrange(part.start as int, part.start + part.len) == block_of(
            content,
            part.index as int,
        ),
{
    assert(content.subrange(part.start as int, part.start + part.len) =~= block_of(
        content,
        part.index as int,
    ));
}

/// Blocks that are digested one after the other, as they are read, are listed in that order; where
/// there was none, the digest of nothing is.
pub proof fn law_digests_are_listed_in_order(
    list: &mut BlockList,
    block: &[u8],
    fresh: BlockList,
    done: BlockList,
    result: Vec<String>,
)
    requires
        call_ensures(BlockList::new, (), fresh),
        call_ensures(BlockList::push, (list, block), ()),
        call_ensures(BlockList::finish, (done,), result),
    ensures
        fresh.digests@.len() == 0,
        final(list).digests@.len() == old(list).digests@.len() + 1,
        final(list).digests@[old(list).digests@.len() as int]@ == md5_hex(block@),
        forall|i: int|
            0 <= i < old(list).digests@.len() ==> (#[trigger] final(list).digests@[i])@
                == old(list).digests@[i]@,
        done.digests@.len() == 0 ==> result@.len() == 1 && result@[0]@ == md5_hex(Seq::empty()),
        done.digests@.len() > 0 ==> result@.len() == done.digests@.len() && forall|i: int|
            0 <= i < result@.len() ==> (#[trigger] result@[i])@ == done.digests@[i]@,
{
    let before = text_views(old(list).digests@);
    let after = text_views(final(list).digests@);
    assert(text_views(fresh.digests@).len() == fresh.digests@.len());
    assert(before.len() == old(list).digests@.len());
    assert(after.len() == final(list).digests@.len());
    assert(after[before.len() as int] == final(list).digests@[before.len() as int]@);
    assert forall|i: int| 0 <= i < old(list).digests@.len() implies (#[trigger] final(list).digests@[i])@
        == old(list).digests@[i]@ by {
        assert(after[i] == before[i]);
    }
    let listed = text_views(result@);
    assert(listed.len() == result@.len());
    if done.digests@.len() == 0 {
        assert(listed[0] == result@[0]@);
    } else {
        assert(text_views(done.digests@).len() == done.digests@.len());
        assert forall|i: int| 0 <= i < result@.len() implies (#[trigger] result@[i])@
            == done.digests@[i]@ by {
            assert(listed[i] == text_views(done.digests@)[i]);
        }
    }
}

// Servers.

/// The servers that an answer names, those for backup last.
pub open spec fn named_server(payload: LocateUploadResponse, i: int) -> Seq<char> {
    if i < payload.servers@.len() {
        payload.servers@[i].server@
    } else {
        payload.bak_servers@[i - payload.servers@.len()].server@
    }
}

/// A server that is reached over HTTPS.
pub open spec fn is_https(server: Seq<char>) -> bool {
    "https://"@.is_prefix_of(trimmed(server))
}

proof fn lemma_first_https_at(servers: Seq<Seq<char>>)
    ensures
        match first_https(servers) {
            Some(host) => exists|i: int|
                {
                    &&& 0 <= i < servers.len()
                    &&& host == trimmed(#[trigger] servers[i])
                    &&& is_https(servers[i])
                    &&& forall|j: int| 0 <= j < i ==> !is_https(#[trigger] servers[j])
                },
            None => forall|j: int| 0 <= j < servers.len() ==> !is_https(#[trigger] servers[j]),
        },
    decreases servers.len(),
{
    if servers.len() > 0 {
        let rest = servers.drop_first();
        lemma_first_https_at(rest);
        if is_https(servers[0]) {
            assert(servers[0] == servers[0]);
        } else {
            match first_https(rest) {
                Some(host) => {
                    let i = choose|i: int|
                        {
                            &&& 0 <= i < rest.len()
                            &&& host == trimmed(#[trigger] rest[i])
                            &&& is_https(rest[i])
                            &&& forall|j: int| 0 <= j < i ==> !is_https(#[trigger] rest[j])
                        };
                    assert(servers[i + 1] == rest[i]);
                    assert forall|j: int| 0 <= j < i + 1 implies !is_https(
                        #[trigger] servers[j],
                    ) by {
                        if j > 0 {
                            assert(servers[j] == rest[j - 1]);
                        }
                    }
                },
                None => {
                    assert forall|j: int| 0 <= j < servers.len() implies !is_https(
                        #[trigger] servers[j],
                    ) by {
                        if j > 0 {
                            assert(servers[j] == rest[j - 1]);
                        }
                    }
                },
            }
        }
    }
}

/// Blocks go to the first server named that is reached over HTTPS, those for backup counted last. Where
/// there is none, or the answer reports an error, the upload fails.
pub proof fn law_first_https_server_is_taken(
    payload: LocateUploadResponse,
    result: Result<String, Error>,
    picked: Option<String>,
)
    requires
        call_ensures(upload_host, (&payload,), result),
        call_ensures(pick_https_upload_host, (&payload,), picked),
    ensures
        ({
            let count = payload.servers@.len() + payload.bak_servers@.len();
            &&& payload.error_code != 0 ==> result is Err
            &&& payload.error_code == 0 ==> (match picked {
                Some(host) => result matches Ok(taken) && taken@ == host@,
                None => result matches Err(error) && error@ == ErrorView::Api(
                    "locateupload returned no https upload host"@,
                ),
            })
            &&& match picked {
                Some(host) => exists|i: int|
                    {
                        &&& 0 <= i < count
                        &&& host@ == trimmed(#[trigger] named_server(payload, i))
                        &&& is_https(named_server(payload, i))
                        &&& forall|j: int|
                            0 <= j < i ==> !is_https(#[trigger] named_server(payload, j))
                    },
                None => forall|j: int|
                    0 <= j < count ==> !is_https(#[trigger] named_server(payload, j)),
            }
        }),
{
    let servers = all_servers(payload);
    let count = payload.servers@.len() + payload.bak_servers@.len();
    assert(server_names(payload.servers@).len() == payload.servers@.len());
    assert(server_names(payload.bak_servers@).len() == payload.bak_servers@.len());
    assert(servers.len() == count);
    assert forall|i: int| 0 <= i < count implies servers[i] == #[trigger] named_server(
        payload,
        i,
    ) by {}
    lemma_first_https_at(servers);
    match picked {
        Some(host) => {
            let i = choose|i: int|
                {
                    &&& 0 <= i < servers.len()
                    &&& host@ == trimmed(#[trigger] servers[i])
                    &&& is_https(servers[i])
                    &&& forall|j: int| 0 <= j < i ==> !is_https(#[trigger] servers[j])
                };
            assert(servers[i] == named_server(payload, i));
            assert forall|j: int| 0 <= j < i implies !is_https(
                #[trigger] named_server(payload, j),
            ) by {
                assert(servers[j] == named_server(payload, j));
            }
        },
        None => {
            assert forall|j: int| 0 <= j < count implies !is_https(
                #[trigger] named_server(payload, j),
            ) by {
                assert(servers[j] == named_server(payload, j));
            }
        },
    }
}

// Going on after an interruption.

/// What is kept of an upload is what it is: its key, its two local paths, its remote path, its size,
/// whether it is encrypted, the digests of its blocks, and its session.
pub proof fn law_kept_state_is_that_of_the_upload(
    session_key: &str,
    prepared: PreparedUpload,
    remote_path: &str,
    block_list: &[String],
    uploadid: &str,
    result: UploadResumeState,
)
    requires
        call_ensures(
            UploadResumeState::of_session,
            (session_key, &prepared, remote_path, block_list, uploadid),
            result,
        ),
    ensures
        result.session_key@ == session_key@,
        result.source_path@ == prepared.source@,
        result.remote_path@ == remote_path@,
        result.materialized_path@ == prepared.materialized@,
        result.size == prepared.size,
        result.encrypted == prepared.encrypted,
        text_views(result.block_list@) == text_views(block_list@),
        result.uploadid@ == uploadid@,
{
    let view = result@;
    assert(view.block_list == text_views(block_list@));
}

/// An upload that is started again goes on with the session that was kept of it.
pub proof fn law_same_upload_goes_on(
    session_key: &str,
    prepared: PreparedUpload,
    remote_path: &str,
    block_list: &[String],
    uploadid: &str,
    force: bool,
    kept: UploadResumeState,
    resumed: Option<&str>,
    request: UploadRequest,
)
    requires
        uploadid@.len() > 0,
        call_ensures(
            UploadResumeState::of_session,
            (session_key, &prepared, remote_path, block_list, uploadid),
            kept,
        ),
        call_ensures(resume_uploadid, (Some(&kept), &prepared, remote_path, block_list), resumed),
        call_ensures(
            upload_request,
            (&prepared, remote_path, block_list, Some(&kept), force),
            request,
        ),
    ensures
        resumed matches Some(id) && id@ == uploadid@,
        request.resume_uploadid matches Some(id) && id@ == uploadid@,
{
    assert(kept@.block_list == text_views(block_list@));
    assert(same_path(prepared.source@, prepared.source@));
    assert(same_path(prepared.materialized@, prepared.materialized@));
}

/// A session is taken up by an upload of the same bytes to the same place only: one of another size,
/// other digests, another remote path, another local path, or encrypted where the other was not, starts
/// anew, and so does one without a state.
pub proof fn law_other_upload_starts_anew(
    state: UploadResumeState,
    prepared: PreparedUpload,
    remote_path: &str,
    block_list: &[String],
    resumed: Option<&str>,
    without: Option<&str>,
)
    requires
        call_ensures(resume_uploadid, (Some(&state), &prepared, remote_path, block_list), resumed),
        call_ensures(resume_uploadid, (None, &prepared, remote_path, block_list), without),
    ensures
        without is None,
        resumed matches Some(id) ==> {
            &&& id@ == state.uploadid@ && id@.len() > 0
            &&& state.remote_path@ == remote_path@
            &&& state.size == prepared.size
            &&& state.encrypted == prepared.encrypted
            &&& text_views(state.block_list@) == text_views(block_list@)
            &&& same_path(state.source_path@, prepared.source@)
            &&& same_path(state.materialized_path@, prepared.materialized@)
        },
        resumed is None ==> {
            ||| state.uploadid@.len() == 0
            ||| state.remote_path@ != remote_path@
            ||| state.size != prepared.size
            ||| state.encrypted != prepared.encrypted
            ||| text_views(state.block_list@) != text_views(block_list@)
            ||| !same_path(state.source_path@, prepared.source@)
            ||| !same_path(state.materialized_path@, prepared.materialized@)
        },
{
}

/// What is uploaded is the prepared file, to the path and with the digests that are given.
pub proof fn law_request_is_for_the_prepared_file(
    prepared: PreparedUpload,
    remote_path: &str,
    block_list: &[String],
    state: Option<&UploadResumeState>,
    force: bool,
    resumed: Option<&str>,
    request: UploadRequest,
)
    requires
        call_ensures(upload_request, (&prepared, remote_path, block_list, state, force), request),
        call_ensures(resume_uploadid, (state, &prepared, remote_path, block_list), resumed),
    ensures
        resumed matches Some(id) ==> (request.resume_uploadid matches Some(named) && named@ == id@),
        resumed is None ==> request.resume_uploadid is None || request.resume_uploadid->0@.len()
            == 0,
        request.local_path@ == prepared.materialized@,
        request.remote_path@ == remote_path@,
        request.size == prepared.size,
        request.block_list@ == block_list@,
        request.encrypted == prepared.encrypted,
        request.ondup == (if force {
            OnDuplicate::Overwrite
        } else {
            OnDuplicate::Fail
        }),
{
}

/// The key of an upload is made of everything that tells it from another: where the file is, where it
/// goes, its size, when it was changed, and whether it is encrypted.
pub proof fn law_key_is_made_of_the_upload(
    store: UploadStateStore,
    source: LocalPath,
    size: u64,
    modified: u64,
    remote: &str,
    encrypt: bool,
    result: String,
)
    requires
        call_ensures(
            UploadStateStore::session_key,
            (&store, &source, size, modified, remote, encrypt),
            result,
        ),
    ensures
        result@ == md5_hex(
            encode_utf8(
                lossy_text(source@) + "|"@ + remote@ + "|"@ + numeral(size as nat) + "|"@ + numeral(
                    modified as nat,
                ) + "|"@ + (if encrypt {
                    "true"@
                } else {
                    "false"@
                }),
            ),
        ),
{
}

/// The state of an upload is kept in `sessions/<key>.json` below the root of the store, and its
/// ciphertext, if it has one, in `cache/<key>.bin`.
pub proof fn law_files_of_a_session(
    root: LocalPath,
    store: UploadStateStore,
    key: &str,
    state_name: &str,
    cache_name: &str,
    sessions: LocalPath,
    caches: LocalPath,
    expected_state: LocalPath,
    expected_cache: LocalPath,
    state: LocalPath,
    cache: LocalPath,
    plain: Option<LocalPath>,
    encrypted: Option<LocalPath>,
)
    requires
        call_ensures(UploadStateStore::new, (root,), store),
        state_name@ == key@ + ".json"@,
        cache_name@ == key@ + ".bin"@,
        call_ensures(LocalPath::join, (&root, "sessions"), sessions),
        call_ensures(LocalPath::join, (&sessions, state_name), expected_state),
        call_ensures(LocalPath::join, (&root, "cache"), caches),
        call_ensures(LocalPath::join, (&caches, cache_name), expected_cache),
        call_ensures(UploadStateStore::state_path, (&store, key), state),
        call_ensures(UploadStateStore::cache_path, (&store, key), cache),
        call_ensures(UploadStateStore::session_cache, (&store, key, false), plain),
        call_ensures(UploadStateStore::session_cache, (&store, key, true), encrypted),
    ensures
        store@ == root@,
        state@ == expected_state@,
        cache@ == expected_cache@,
        plain is None,
        encrypted matches Some(path) && path@ == expected_cache@,
{
}

/// What is done to the files of a session: its state is put where it is kept, taken away from there,
/// and after the upload taken away together with the ciphertext, if there is one. No other file is
/// touched, but for the one beside which the state is written.
pub proof fn law_steps_of_a_session(
    store: UploadStateStore,
    state: UploadResumeState,
    json: Vec<u8>,
    key: &str,
    path: LocalPath,
    temp: LocalPath,
    materialized: LocalPath,
    encrypted: bool,
    saved: Vec<FileStep>,
    removed: Vec<FileStep>,
    cleaned: Vec<FileStep>,
    files: Map<Seq<u8>, Seq<u8>>,
    passphrase: Seq<char>,
)
    requires
        key@ == state.session_key@,
        is_plain_key(key@),
        call_ensures(UploadStateStore::state_path, (&store, key), path),
        call_ensures(LocalPath::with_extension, (&path, "json.tmp"), temp),
        call_ensures(UploadStateStore::save, (&store, &state, json), saved),
        call_ensures(UploadStateStore::remove, (&store, key), removed),
        call_ensures(
            UploadStateStore::cleanup_success,
            (&store, key, &materialized, encrypted),
            cleaned,
        ),
    ensures
        after_steps(files, step_views(saved@), passphrase) == Some(
            files.remove(temp@).insert(path@, json@),
        ),
        after_steps(files, step_views(removed@), passphrase) == Some(files.remove(path@)),
        after_steps(files, step_views(cleaned@), passphrase) == Some(
            if encrypted {
                files.remove(path@).remove(materialized@)
            } else {
                files.remove(path@)
            },
        ),
{
    super::lemma_state_paths(store@, key@, key@);
    super::law_replacement_is_atomic(files, path@, json@, false, passphrase);
    reveal_with_fuel(after_steps, 3);
    let gone = step_views(removed@);
    assert(gone.drop_last() =~= Seq::empty());
    let clean = step_views(cleaned@);
    assert(clean[0] == gone[0]);
    if encrypted {
        assert(clean.drop_last() =~= gone);
    } else {
        assert(clean =~= gone);
    }
}

// What is uploaded.

/// A file is uploaded as it is unless it is to be encrypted. Without a passphrase nothing is encrypted.
/// A ciphertext that is there already is taken; otherwise one is made where it is kept, or in a
/// temporary file where none is kept.
pub proof fn law_source_of_an_upload(
    planner: TransferPlanner,
    encrypt: bool,
    cache: Option<&LocalPath>,
    cached: bool,
    setting: ConfigValue,
    result: Result<UploadSource, Error>,
)
    requires
        call_ensures(
            TransferPlanner::prepare_upload_with_cache,
            (&planner, encrypt, cache, cached, setting),
            result,
        ),
    ensures
        !encrypt ==> result is Ok && result->Ok_0 is Plain,
        encrypt && setting.value() is None ==> result is Err && result->Err_0@ == ErrorView::Crypto(
            "encryption/decryption requires "@ + "BAIDUPAN_CRYPTO_PASSPHRASE"@
                + " environment variable"@,
        ),
        encrypt && setting.value() is Some ==> result is Ok && match (cache, result->Ok_0) {
            (None, UploadSource::EncryptToTemp) => true,
            (Some(path), UploadSource::Cached(file)) => cached && file@ == path@,
            (Some(path), UploadSource::EncryptTo { steps, path: file }) => !cached && file@ == path@
                && match parent_of(path@) {
                Some(parent) => steps@.len() == 1 && (steps@[0] matches
                    FileStep::CreateDir(dir) && dir@ == parent),
                None => steps@.len() == 0,
            },
            _ => false,
        },
{
    if encrypt && setting.value() is Some {
        if let UploadSource::EncryptTo { steps, path } = result->Ok_0 {
            let views = step_views(steps@);
            assert(views.len() == steps@.len());
            if steps@.len() > 0 {
                assert(views[0] == steps@[0]@);
            }
        }
    }
}

/// Where no ciphertext is kept, a file is prepared as one is whose ciphertext is not there.
pub proof fn law_source_without_a_cache(
    planner: TransferPlanner,
    encrypt: bool,
    setting: ConfigValue,
    result: Result<UploadSource, Error>,
    general: Result<UploadSource, Error>,
)
    requires
        call_ensures(TransferPlanner::prepare_upload, (&planner, encrypt, setting), result),
        call_ensures(
            TransferPlanner::prepare_upload_with_cache,
            (&planner, encrypt, None, false, setting),
            general,
        ),
    ensures
        outcome(result) == outcome(general),
{
}

/// A prepared upload is of the local file, by its ciphertext if there is one.
pub proof fn law_prepared_upload(
    planner: TransferPlanner,
    local: LocalPath,
    ciphertext: Option<LocalPath>,
    size: u64,
    result: PreparedUpload,
)
    requires
        call_ensures(
            TransferPlanner::prepared_upload,
            (&planner, &local, ciphertext, size),
            result,
        ),
    ensures
        result.source@ == local@,
        result.size == size,
        ciphertext is None ==> !result.encrypted && result.materialized@ == local@,
        ciphertext matches Some(path) ==> result.encrypted && result.materialized@ == path@,
{
}

} // verus!
