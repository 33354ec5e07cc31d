//! What holds of downloads, from the question for the file to the file at its destination.
use vstd::prelude::*;

use super::remote::is_sought;
use super::texts::law_numerals_are_told_apart;
use super::{after_steps, in_one, written};
use crate::api::{
    download_start, download_summary, first_metadata, get_file_metadata, normalize_remote_path,
    resolve_entry_by_path, DownloadPlan, DownloadStart, DownloadSummary, EntryLookup, FileMetaEntry,
    PanClient, RemoteEntry,
};
use crate::config::ConfigValue;
use crate::error::{outcome, Error, ErrorView};
use crate::files::{step_views, FileStep};
use crate::http::{HttpRequest, Method};
use crate::json::{json_numbers, with_commas};
use crate::path::{lossy_text, LocalPath};
use crate::session::DownloadRun;
use crate::text::numeral;
use crate::transfer::{
    downloaded_content, sidecar_path, PreparedDownload, Sidecars, TransferPlanner,
};

verus! {

// What is asked for.

/// A server that honours ranges answers with the whole content and status 200, or, where it was asked
/// for the bytes from `from` on, with those and status 206.
pub open spec fn serves(
    content: Seq<u8>,
    range: Option<Seq<char>>,
    status: u16,
    body: Seq<u8>,
) -> bool {
    ||| status == 200 && body == content
    ||| status == 206 && exists|from: nat|
        {
            &&& from <= content.len()
            &&& range == Some("bytes="@ + #[trigger] numeral(from) + "-"@)
            &&& body == content.subrange(from as int, content.len() as int)
        }
}

proof fn lemma_range(a: nat, b: nat)
    requires
        "bytes="@ + numeral(a) + "-"@ == "bytes="@ + numeral(b) + "-"@,
    ensures
        a == b,
{
    let first = "bytes="@ + numeral(a) + "-"@;
    let second = "bytes="@ + numeral(b) + "-"@;
    reveal_strlit("bytes=");
    reveal_strlit("-");
    assert(first.subrange(6, first.len() - 1) =~= numeral(a));
    assert(second.subrange(6, second.len() - 1) =~= numeral(b));
    law_numerals_are_told_apart(a, b);
}

/// A download goes on where the partial file ends. What is asked for starts behind the bytes that are
/// here, and what any server sends that honours ranges, written as its status says, makes the partial
/// file the remote content: no byte is missing and none stands twice. Where all is here, nothing is
/// asked for.
pub proof fn law_download_completes_the_content(
    client: PanClient,
    metadata: FileMetaEntry,
    content: Seq<u8>,
    partial: Seq<u8>,
    resume_from: u64,
    access_token: &str,
    plan: Result<DownloadPlan, Error>,
    status: u16,
    start: DownloadStart,
    chunks: Seq<Seq<u8>>,
)
    requires
        call_ensures(PanClient::download_file, (&client, &metadata, resume_from, access_token), plan),
        call_ensures(download_start, (resume_from, status), start),
        metadata.isdir != 1,
        metadata.dlink is Some,
        metadata.size == content.len(),
        partial.is_prefix_of(content),
        resume_from == partial.len(),
    ensures
        plan is Ok,
        plan->Ok_0 is Complete <==> partial == content && content.len() > 0,
        plan->Ok_0 matches DownloadPlan::Fetch(request) ==> {
            &&& request@.method == Method::Get
            &&& request@.url == metadata.dlink->0@
            &&& request@.query == seq![("access_token"@, access_token@)]
            &&& request@.form.len() == 0
            &&& request@.range == (if partial.len() > 0 {
                Some("bytes="@ + numeral(partial.len()) + "-"@)
            } else {
                None
            })
            &&& serves(content, request@.range, status, in_one(chunks)) ==> written(
                start,
                partial,
                chunks,
            ) == content
        },
{
    assert(partial =~= content.subrange(0, partial.len() as int));
    if partial.len() == content.len() {
        assert(partial =~= content);
    }
    if let DownloadPlan::Fetch(request) = plan->Ok_0 {
        if serves(content, request@.range, status, in_one(chunks)) && status == 206 {
            let from = choose|from: nat|
                {
                    &&& from <= content.len()
                    &&& request@.range == Some("bytes="@ + #[trigger] numeral(from) + "-"@)
                    &&& in_one(chunks) == content.subrange(from as int, content.len() as int)
                };
            lemma_range(from, partial.len());
            assert(partial + in_one(chunks) =~= content);
        }
    }
}

/// A download of a directory, of a file without a link, and one whose partial file is longer than the
/// file are refused, each in its own words.
pub proof fn law_download_is_refused(
    client: PanClient,
    metadata: FileMetaEntry,
    resume_from: u64,
    access_token: &str,
    plan: Result<DownloadPlan, Error>,
)
    requires
        call_ensures(PanClient::download_file, (&client, &metadata, resume_from, access_token), plan),
    ensures
        plan is Err <==> metadata.isdir == 1 || metadata.dlink is None || resume_from > metadata.size,
        plan matches Err(error) ==> error@ == ErrorView::Api(
            if metadata.isdir == 1 {
                metadata.path@ + " is a directory; download currently supports files only"@
            } else if metadata.dlink is None {
                "download link missing from metadata"@
            } else {
                "local partial file is larger than remote file for "@ + metadata.path@
                    + "; remove the partial file and retry"@
            },
        ),
{
}

/// Only a partial answer to a download that goes on is written behind what is here; any other answer
/// is written from the start. The bytes that arrive are counted from there.
pub proof fn law_only_a_partial_answer_is_appended(
    resume_from: u64,
    status: u16,
    start: DownloadStart,
    going: &mut DownloadStart,
    len: usize,
)
    requires
        call_ensures(download_start, (resume_from, status), start),
        call_ensures(DownloadStart::advance, (going, len), ()),
    ensures
        start.append <==> resume_from > 0 && status == 206,
        start.append ==> start.offset == resume_from,
        !start.append ==> start.offset == 0,
        final(going).offset == old(going).offset + len,
        final(going).append == old(going).append,
{
}

// What is looked for.

/// A download looks for its normalized path, as a lookup does, in the directory that the lookup names.
/// What is refused by either is refused by the download.
pub proof fn law_download_looks_in_the_directory(
    remote_path: &str,
    normalized: Result<String, Error>,
    path: &str,
    lookup: Result<EntryLookup, Error>,
    resume_from: u64,
    run: Result<DownloadRun, Error>,
)
    requires
        call_ensures(normalize_remote_path, (remote_path,), normalized),
        normalized matches Ok(text) ==> text@ == path@,
        call_ensures(resolve_entry_by_path, (path,), lookup),
        call_ensures(DownloadRun::new, (remote_path, resume_from), run),
    ensures
        match (normalized, lookup) {
            (Err(error), _) => run is Err && run->Err_0@ == error@,
            (Ok(_), Err(error)) => run is Err && run->Err_0@ == error@,
            (Ok(_), Ok(sought)) => {
                &&& run is Ok
                &&& run->Ok_0.lookup.remote_path@ == sought.remote_path@
                &&& run->Ok_0.lookup.parent@ == sought.parent@
                &&& run->Ok_0.lookup.name@ == sought.name@
                &&& run->Ok_0.resume_from == resume_from
                &&& run->Ok_0.wf()
            },
        },
{
}

/// What a download asks for first are the entries of the directory that it looks in.
pub proof fn law_download_lists_the_directory(
    run: DownloadRun,
    client: PanClient,
    directory: &str,
    access_token: &str,
    result: Result<HttpRequest, Error>,
    listed: Result<HttpRequest, Error>,
)
    requires
        run.wf(),
        directory@ == run.lookup.parent@,
        call_ensures(DownloadRun::list_request, (&run, &client, access_token), result),
        call_ensures(PanClient::list_dir, (&client, directory, access_token), listed),
    ensures
        outcome(result) == outcome(listed),
{
}

/// The number of a file as a list of one.
pub open spec fn one_number(n: u64) -> Seq<char> {
    seq!['['] + numeral(n as nat) + seq![']']
}

proof fn lemma_one_number(n: u64)
    ensures
        json_numbers(seq![n]) == one_number(n),
{
    let parts = seq![n].map_values(|n: u64| numeral(n as nat));
    assert(parts =~= seq![numeral(n as nat)]);
    assert(with_commas(parts) == numeral(n as nat));
}

/// What the platform knows of a file is asked for by the number of the file, with the link to its
/// content where that is wanted.
pub proof fn law_metadata_is_asked_for_by_number(
    entry: RemoteEntry,
    dlink: bool,
    access_token: &str,
    result: Result<HttpRequest, Error>,
)
    requires
        call_ensures(get_file_metadata, (&entry, dlink, access_token), result),
    ensures
        result is Ok,
        result->Ok_0@.method == Method::Get,
        result->Ok_0@.url == "https://pan.baidu.com/rest/2.0/xpan/file"@,
        result->Ok_0@.query == seq![
            ("method"@, "filemetas"@),
            ("access_token"@, access_token@),
            ("fsids"@, one_number(entry.fs_id)),
            (
                "dlink"@,
                if dlink {
                    "1"@
                } else {
                    "0"@
                },
            ),
        ],
        result->Ok_0@.form.len() == 0,
        result->Ok_0@.range is None,
{
    lemma_one_number(entry.fs_id);
}

/// A download asks for the link to the first entry of the directory that has its path or its name.
pub proof fn law_download_asks_for_the_entry_sought(
    run: DownloadRun,
    entries: Vec<RemoteEntry>,
    access_token: &str,
    found: Result<RemoteEntry, Error>,
    result: Result<HttpRequest, Error>,
)
    requires
        call_ensures(EntryLookup::find, (&run.lookup, entries), found),
        call_ensures(DownloadRun::metadata_request, (&run, entries, access_token), result),
    ensures
        match found {
            Ok(entry) => result is Ok && result->Ok_0@.query == seq![
                ("method"@, "filemetas"@),
                ("access_token"@, access_token@),
                ("fsids"@, one_number(entry.fs_id)),
                ("dlink"@, "1"@),
            ],
            Err(error) => result is Err && result->Err_0@ == error@,
        },
        found is Ok <==> exists|i: int|
            0 <= i < entries@.len() && is_sought(
                #[trigger] entries@[i],
                run.lookup.remote_path@,
                run.lookup.name@,
            ),
{
    super::remote::lemma_first_match(entries@, run.lookup.remote_path@, run.lookup.name@);
    if let Ok(entry) = found {
        lemma_one_number(entry.fs_id);
    }
}

/// What is downloaded is what the first description in the answer describes, from where the partial
/// file ends.
pub proof fn law_download_is_planned_from_the_answer(
    run: DownloadRun,
    client: PanClient,
    info: Vec<FileMetaEntry>,
    access_token: &str,
    first: Result<FileMetaEntry, Error>,
    remote_path: &str,
    planned: Result<DownloadPlan, Error>,
    result: Result<(FileMetaEntry, DownloadPlan), Error>,
)
    requires
        remote_path@ == run.lookup.remote_path@,
        call_ensures(first_metadata, (info, remote_path), first),
        first is Ok ==> call_ensures(
            PanClient::download_file,
            (&client, &first->Ok_0, run.resume_from, access_token),
            planned,
        ),
        call_ensures(DownloadRun::plan, (&run, &client, info, access_token), result),
    ensures
        info@.len() > 0 ==> first is Ok && first->Ok_0 == info@[0],
        info@.len() == 0 ==> first is Err && first->Err_0@ == ErrorView::Api(
            "no metadata returned for "@ + run.lookup.remote_path@,
        ),
        match (first, result) {
            (Err(error), Err(reported)) => reported@ == error@,
            (Ok(metadata), Ok((described, plan))) => described == metadata && planned is Ok && plan@
                == planned->Ok_0@,
            (Ok(_), Err(reported)) => planned is Err && reported@ == planned->Err_0@,
            _ => false,
        },
{
}

/// The summary of a download names the remote file, the local one and the size, and what was done.
pub proof fn law_download_summary(
    metadata: FileMetaEntry,
    destination: LocalPath,
    summary: DownloadSummary,
    local: LocalPath,
    decrypted: bool,
    finished: DownloadSummary,
)
    requires
        call_ensures(download_summary, (&metadata, &destination), summary),
        call_ensures(DownloadSummary::finished, (summary, local, decrypted), finished),
    ensures
        summary.remote_path@ == metadata.path@,
        summary.local_path@ == destination@,
        summary.size == metadata.size,
        !summary.decrypted,
        finished.remote_path@ == metadata.path@,
        finished.local_path@ == local@,
        finished.size == metadata.size,
        finished.decrypted == decrypted,
{
}

// What is written.

/// A download does not write over a file unless it is forced. It goes on where an earlier one of the
/// same remote file, for the same use, left a partial file, from the end of that; any other starts from
/// nothing.
pub proof fn law_download_is_prepared(
    planner: TransferPlanner,
    remote_path: &str,
    destination: LocalPath,
    decrypt: bool,
    force: bool,
    exists: bool,
    sidecars: Sidecars,
    state_json: Vec<u8>,
    partial: LocalPath,
    state: LocalPath,
    result: Result<(PreparedDownload, Vec<FileStep>), Error>,
)
    requires
        call_ensures(
            TransferPlanner::prepare_download,
            (
                &planner,
                remote_path,
                &destination,
                decrypt,
                force,
                exists,
                &sidecars,
                state_json,
            ),
            result,
        ),
        call_ensures(sidecar_path, (&destination, "baidupan.part"), partial),
        call_ensures(sidecar_path, (&destination, "baidupan.resume.json"), state),
    ensures
        result is Err <==> exists && !force,
        result matches Err(error) ==> error@ == ErrorView::Api(
            "destination "@ + lossy_text(destination@) + " exists; rerun with --force"@,
        ),
        result matches Ok((prepared, _)) ==> {
            &&& prepared.remote_path@ == remote_path@
            &&& prepared.destination@ == destination@
            &&& prepared.temp_path@ == partial@
            &&& prepared.state_path@ == state@
            &&& prepared.decrypt == decrypt
            &&& prepared.resume_from == (match sidecars {
                Sidecars::Found { state, temp_len } => if state.remote_path@ == remote_path@
                    && state.decrypt == decrypt {
                    temp_len
                } else {
                    0
                },
                _ => 0,
            })
        },
{
    if let Ok((prepared, _)) = result {
        assert(prepared@.temp_path == partial@);
        assert(prepared@.state_path == state@);
    }
}

/// What stands in the files after a download has been prepared: its state, and the partial file where
/// it goes on; where it does not, there is no partial file. Nothing else is touched.
pub proof fn law_prepared_download_leaves_the_rest(
    planner: TransferPlanner,
    remote_path: &str,
    destination: LocalPath,
    decrypt: bool,
    force: bool,
    exists: bool,
    sidecars: Sidecars,
    state_json: Vec<u8>,
    result: Result<(PreparedDownload, Vec<FileStep>), Error>,
    files: Map<Seq<u8>, Seq<u8>>,
    passphrase: Seq<char>,
)
    requires
        call_ensures(
            TransferPlanner::prepare_download,
            (
                &planner,
                remote_path,
                &destination,
                decrypt,
                force,
                exists,
                &sidecars,
                state_json,
            ),
            result,
        ),
        result is Ok,
        sidecars is Absent ==> !files.contains_key(result->Ok_0.0.temp_path@),
    ensures
        ({
            let (prepared, steps) = result->Ok_0;
            let after = after_steps(files, step_views(steps@), passphrase);
            let goes_on = sidecars matches Sidecars::Found { state, .. } && state.remote_path@
                == remote_path@ && state.decrypt == decrypt;
            &&& after is Some
            &&& after->0 == (if goes_on {
                files
            } else {
                files.remove(prepared.temp_path@)
            }).insert(prepared.state_path@, state_json@)
        }),
{
    let (prepared, steps) = result->Ok_0;
    let views = step_views(steps@);
    super::law_sidecars_are_apart(destination@);
    reveal_with_fuel(after_steps, 4);
    if views.len() == 1 {
        assert(views.drop_last() =~= Seq::empty());
        if sidecars is Absent {
            assert(files.remove(prepared.temp_path@) =~= files);
        }
    } else {
        assert(views.drop_last().drop_last().drop_last() =~= Seq::empty());
        let after = after_steps(files, views, passphrase);
        assert(after->0 =~= files.remove(prepared.temp_path@).insert(
            prepared.state_path@,
            state_json@,
        ));
    }
}

/// A finished download leaves its content at the destination, decrypted if that was asked for, and no
/// sidecar file, and touches nothing else; and without a passphrase nothing is decrypted.
pub proof fn law_finished_download_replaces_the_destination(
    planner: TransferPlanner,
    prepared: PreparedDownload,
    force: bool,
    exists: bool,
    setting: ConfigValue,
    partial: LocalPath,
    state: LocalPath,
    result: Result<Vec<FileStep>, Error>,
    files: Map<Seq<u8>, Seq<u8>>,
    content: Seq<u8>,
)
    requires
        call_ensures(
            TransferPlanner::finalize_download,
            (&planner, &prepared, force, exists, setting),
            result,
        ),
        call_ensures(sidecar_path, (&prepared.destination, "baidupan.part"), partial),
        call_ensures(sidecar_path, (&prepared.destination, "baidupan.resume.json"), state),
        prepared.temp_path@ == partial@,
        prepared.state_path@ == state@,
        files.contains_key(partial@),
        prepared.decrypt && setting.value() is Some ==> downloaded_content(
            files[partial@],
            setting.value()->0,
        ) == Ok::<Seq<u8>, ErrorView>(content),
        !prepared.decrypt ==> files[partial@] == content,
    ensures
        result is Err <==> prepared.decrypt && setting.value() is None,
        result matches Err(error) ==> error@ == ErrorView::Crypto(
            "encryption/decryption requires "@ + "BAIDUPAN_CRYPTO_PASSPHRASE"@
                + " environment variable"@,
        ),
        result matches Ok(steps) ==> after_steps(
            files,
            step_views(steps@),
            if setting.value() is Some {
                setting.value()->0
            } else {
                Seq::empty()
            },
        ) == Some(
            files.remove(partial@).remove(state@).insert(prepared.destination@, content),
        ),
{
    if result is Ok {
        let passphrase = if setting.value() is Some {
            setting.value()->0
        } else {
            Seq::<char>::empty()
        };
        super::law_finished_download_is_in_place(
            files,
            prepared@,
            force && exists,
            passphrase,
        );
    }
}

/// A file that is there is written over by force only.
pub proof fn law_force_is_needed_to_overwrite(
    planner: TransferPlanner,
    local: LocalPath,
    exists: bool,
    force: bool,
    result: Result<(), Error>,
)
    requires
        call_ensures(
            TransferPlanner::assert_download_target,
            (&planner, &local, exists, force),
            result,
        ),
    ensures
        result is Ok <==> force || !exists,
        result matches Err(error) ==> error@ == ErrorView::Api(
            "destination "@ + lossy_text(local@) + " exists; rerun with --force"@,
        ),
{
}

} // verus!
