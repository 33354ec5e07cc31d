//! The file operations of the open platform: what is sent, and what the answers mean.
use vstd::prelude::*;

use crate::auth::{refresh_request, OAuthClient};
use crate::config::{replace_steps, text_view, AppCredentials, StoredToken, TokenStore};
use crate::error::{concat, outcome, Error, ErrorView};
use crate::files::{step_views, FileStep, FileStepView};
use crate::hints::{errno_hint, openapi_errno_hint};
use crate::http::{bare, HttpRequest, HttpRequestView, Method};
use crate::json::{
    json_document, json_numbers, json_relocation, json_strings, numbers_to_json, relocation_to_json,
    strings_to_json, text_views, JsonDocument, JsonDocumentView, JsonScalar, JsonScalarView,
};
use crate::path::{
    char_marks, find_name, find_parent, marks_of_chars, name_range, parent_end, LocalPath,
};
use crate::text::{
    chars_of, decimal, double_slash, has_double_slash, has_prefix, integer_of, numeral, parse_i32,
    same_text, signed_decimal, signed_numeral, text_of, trim, trimmed,
};
use crate::transfer::UPLOAD_PART_SIZE;

verus! {

pub const XPAN_FILE_API: &'static str = "https://pan.baidu.com/rest/2.0/xpan/file";

pub const LOCATE_UPLOAD_API: &'static str = "https://d.pcs.baidu.com/rest/2.0/pcs/file";

pub const UPLOAD_APP_ID: &'static str = "250528";

pub const UPLOAD_VERSION: &'static str = "2.0";

/// An entry of a remote directory.
#[derive(Debug, Clone, PartialEq, Eq)]
pub struct RemoteEntry {
    pub fs_id: u64,
    pub path: String,
    pub server_filename: String,
    pub isdir: i32,
    pub size: u64,
    pub server_mtime: i64,
    pub md5: Option<String>,
}

/// What the platform knows of a remote file.
#[derive(Debug, Clone, PartialEq, Eq)]
pub struct FileMetaEntry {
    pub path: String,
    pub isdir: i32,
    pub size: u64,
    pub dlink: Option<String>,
}

/// The platform's answer to the announcement of an upload.
#[derive(Debug, Clone, PartialEq, Eq)]
pub struct PrecreateResponse {
    pub uploadid: Option<String>,
    pub block_list: Vec<usize>,
}

/// The platform's answer to the completion of an upload.
#[derive(Debug, Clone, PartialEq, Eq)]
pub struct CreateResponse {
    pub path: Option<String>,
    pub fs_id: Option<u64>,
    pub size: Option<u64>,
    pub md5: Option<String>,
}

/// What came of an upload.
#[derive(Debug, Clone, PartialEq, Eq)]
pub struct UploadSummary {
    pub path: String,
    pub fs_id: Option<u64>,
    pub size: u64,
    pub md5: Option<String>,
    pub encrypted: bool,
    pub parts: usize,
}

#[verifier::ext_equal]
pub struct UploadSummaryView {
    pub path: Seq<char>,
    pub fs_id: Option<u64>,
    pub size: u64,
    pub md5: Option<Seq<char>>,
    pub encrypted: bool,
    pub parts: usize,
}

impl View for UploadSummary {
    type V = UploadSummaryView;

    open spec fn view(&self) -> UploadSummaryView {
        UploadSummaryView {
            path: self.path@,
            fs_id: self.fs_id,
            size: self.size,
            md5: text_view(self.md5),
            encrypted: self.encrypted,
            parts: self.parts,
        }
    }
}

/// What came of a download.
#[derive(Debug, Clone, PartialEq, Eq)]
pub struct DownloadSummary {
    pub remote_path: String,
    pub local_path: LocalPath,
    pub size: u64,
    pub decrypted: bool,
}

/// What becomes of an upload where the remote file exists already.
#[derive(Debug, Clone, Copy, PartialEq, Eq, Structural)]
pub enum OnDuplicate {
    /// It is refused.
    Fail,
    /// It takes the place of the file.
    Overwrite,
}

impl OnDuplicate {
    /// The policy that a user asks for: files are overwritten by force only.
    pub fn from_force(force: bool) -> (result: OnDuplicate)
        ensures
            result == duplicate_policy(force),
    {
        if force {
            OnDuplicate::Overwrite
        } else {
            OnDuplicate::Fail
        }
    }

    /// The platform's number for the policy.
    pub fn rtype(&self) -> (result: &'static str)
        ensures
            result@ == rtype_of(*self),
    {
        match self {
            OnDuplicate::Fail => "0",
            OnDuplicate::Overwrite => "3",
        }
    }
}

/// The policy that a user asks for: files are overwritten by force only.
pub open spec fn duplicate_policy(force: bool) -> OnDuplicate {
    if force {
        OnDuplicate::Overwrite
    } else {
        OnDuplicate::Fail
    }
}

/// The platform's number for a policy, the same in every request of an upload.
pub open spec fn rtype_of(ondup: OnDuplicate) -> Seq<char> {
    match ondup {
        OnDuplicate::Fail => "0"@,
        OnDuplicate::Overwrite => "3"@,
    }
}

/// A file to upload, with the digests of its blocks.
pub struct UploadRequest<'a> {
    pub local_path: &'a LocalPath,
    pub remote_path: &'a str,
    pub size: u64,
    pub block_list: &'a [String],
    pub encrypted: bool,
    pub resume_uploadid: Option<&'a str>,
    pub ondup: OnDuplicate,
}

#[derive(Debug, Clone, PartialEq, Eq)]
pub struct LocateUploadServer {
    pub server: String,
}

/// The servers that take the blocks of an upload.
#[derive(Debug, Clone, PartialEq, Eq)]
pub struct LocateUploadResponse {
    pub error_code: i64,
    pub error_msg: String,
    pub servers: Vec<LocateUploadServer>,
    pub bak_servers: Vec<LocateUploadServer>,
}

/// A number that the platform gives as such or as text.
#[derive(Debug, Clone, PartialEq, Eq)]
pub enum IntLike {
    Int(i32),
    Text(String),
}

/// The number itself.
pub fn int_like(value: IntLike) -> (result: Result<i32, String>)
    ensures
        match value {
            IntLike::Int(n) => result == Ok::<i32, String>(n),
            IntLike::Text(text) => match integer_of(text@) {
                Some(n) if i32::MIN <= n <= i32::MAX => result == Ok::<i32, String>(n as i32),
                _ => result is Err,
            },
        },
{
    match value {
        IntLike::Int(n) => Ok(n),
        IntLike::Text(text) => parse_i32(text.as_str()),
    }
}

// Remote paths.

/// A remote path as the platform takes it: trimmed, and absolute.
pub open spec fn absolute(path: Seq<char>) -> Seq<char> {
    if trimmed(path)[0] == '/' {
        trimmed(path)
    } else {
        seq!['/'] + trimmed(path)
    }
}

/// The remote path that a text names. A blank text names none, nor does one with an empty component.
pub open spec fn normalized_remote(path: Seq<char>) -> Result<Seq<char>, ErrorView> {
    if trimmed(path).len() == 0 || has_double_slash(absolute(path)) {
        Err(ErrorView::InvalidRemotePath(path))
    } else {
        Ok(absolute(path))
    }
}

/// The remote path that a text names.
pub fn normalize_remote_path(path: &str) -> (result: Result<String, Error>)
    ensures
        outcome(result) == normalized_remote(path@),
{
    let text = trim(path);
    let chars = chars_of(text.as_str());
    if chars.len() == 0 {
        return Err(Error::InvalidRemotePath(path.to_owned()));
    }
    let normalized = if chars[0] == '/' {
        text
    } else {
        let mut normalized = String::new();
        normalized.push('/');
        normalized.append(text.as_str());
        assert(normalized@ =~= seq!['/'] + text@);
        normalized
    };
    if double_slash(normalized.as_str()) {
        return Err(Error::InvalidRemotePath(path.to_owned()));
    }
    Ok(normalized)
}

/// The last component of a remote path, if it is a name.
pub open spec fn remote_name(path: Seq<char>) -> Option<Seq<char>> {
    match name_range(char_marks(path)) {
        Some((from, to)) => Some(path.subrange(from, to)),
        None => None,
    }
}

/// The directory that holds a remote path: the root where it has no other.
pub open spec fn remote_parent(path: Seq<char>) -> Seq<char> {
    match parent_end(char_marks(path)) {
        Some(end) if end > 0 => path.subrange(0, end),
        _ => "/"@,
    }
}

fn remote_file_name(path: &str) -> (result: Option<String>)
    ensures
        text_view(result) == remote_name(path@),
{
    let chars = chars_of(path);
    let marks = marks_of_chars(&chars);
    assert(marks@.len() == chars@.len());
    match find_name(&marks) {
        Some((from, to)) => Some(text_of(&chars, from, to)),
        None => None,
    }
}

/// The directory that holds a remote path.
pub fn parent_remote_dir(path: &str) -> (result: String)
    ensures
        result@ == remote_parent(path@),
{
    let chars = chars_of(path);
    let marks = marks_of_chars(&chars);
    assert(marks@.len() == chars@.len());
    match find_parent(&marks) {
        Some(end) => if end > 0 {
            text_of(&chars, 0, end)
        } else {
            "/".to_owned()
        },
        None => "/".to_owned(),
    }
}

/// What tells the platform to move or copy a file: where it is, where it goes, and its new name.
pub open spec fn relocation(from: Seq<char>, to: Seq<char>) -> Result<Seq<char>, ErrorView> {
    match (normalized_remote(from), normalized_remote(to)) {
        (Err(error), _) => Err(error),
        (_, Err(error)) => Err(error),
        (Ok(from), Ok(to)) => match remote_name(to) {
            Some(name) => Ok(json_relocation(from, remote_parent(to), name)),
            None => Err(ErrorView::InvalidRemotePath(to)),
        },
    }
}

/// What tells the platform to move or copy a file.
pub fn move_like_payload(from: &str, to: &str) -> (result: Result<String, Error>)
    ensures
        outcome(result) == relocation(from@, to@),
{
    let from = match normalize_remote_path(from) {
        Ok(path) => path,
        Err(error) => return Err(error),
    };
    let to = match normalize_remote_path(to) {
        Ok(path) => path,
        Err(error) => return Err(error),
    };
    let parent = parent_remote_dir(to.as_str());
    match remote_file_name(to.as_str()) {
        Some(name) => Ok(relocation_to_json(from.as_str(), parent.as_str(), name.as_str())),
        None => Err(Error::InvalidRemotePath(to)),
    }
}

// Answers that report errors.

/// The message that an answer carries, set off for the end of an error text.
pub open spec fn message_part(payload: JsonDocumentView) -> Seq<char> {
    let message = match payload.get("errmsg"@) {
        Some(value) => Some(value),
        None => payload.get("error_msg"@),
    };
    match message {
        Some(JsonScalarView::Text(text)) => ", message="@ + text,
        _ => ""@,
    }
}

/// The hint for an error number, set off for an error text.
pub open spec fn hint_part(errno: int) -> Seq<char> {
    match errno_hint(errno) {
        Some(hint) => ", hint="@ + hint,
        None => ""@,
    }
}

/// The error number of an answer. One that carries none reports success.
pub open spec fn errno_of(payload: JsonDocumentView) -> int {
    match payload.get_int("errno"@) {
        Some(errno) => errno,
        None => 0,
    }
}

/// What an answer with an error number is reported as.
pub open spec fn api_error(operation: Seq<char>, payload: JsonDocumentView) -> ErrorView {
    ErrorView::Api(
        operation + " failed with errno="@ + signed_numeral(errno_of(payload)) + hint_part(
            errno_of(payload),
        ) + message_part(payload) + ": "@ + payload.text,
    )
}

fn hint_text(errno: i64) -> (result: String)
    ensures
        result@ == hint_part(errno as int),
{
    match openapi_errno_hint(errno) {
        Some(hint) => concat(", hint=", hint),
        None => "".to_owned(),
    }
}

fn message_text(payload: &JsonDocument) -> (result: String)
    ensures
        result@ == message_part(payload@),
{
    let message = match payload.get("errmsg") {
        Some(value) => Some(value),
        None => payload.get("error_msg"),
    };
    match message {
        Some(JsonScalar::Text(text)) => concat(", message=", text.as_str()),
        _ => "".to_owned(),
    }
}

/// What an answer with an error number is reported as.
pub fn api_payload_error(operation: &str, payload: &JsonDocument) -> (result: Error)
    ensures
        result@ == api_error(operation@, payload@),
{
    let errno: i64 = match payload.get_int("errno") {
        Some(errno) => errno,
        None => 0,
    };
    let mut text = concat(operation, " failed with errno=");
    text.append(signed_decimal(errno).as_str());
    text.append(hint_text(errno).as_str());
    text.append(message_text(payload).as_str());
    text.append(": ");
    text.append(payload.text.as_str());
    Error::Api(text)
}

/// What the answer to an operation comes to: success unless it carries an error number.
pub open spec fn payload_outcome(operation: Seq<char>, payload: JsonDocumentView) -> Result<
    (),
    ErrorView,
> {
    if errno_of(payload) == 0 {
        Ok(())
    } else {
        Err(api_error(operation, payload))
    }
}

/// What the body of an answer comes to. One that is not JSON is a failure of the transport.
pub open spec fn answer_outcome(operation: Seq<char>, body: Seq<u8>) -> Result<(), ErrorView> {
    match json_document(body) {
        Some(payload) => payload_outcome(operation, payload),
        None => Err(ErrorView::Http("error decoding response body"@)),
    }
}

/// Whether the answer to an operation reports success.
pub fn check_pan_payload(operation: &str, payload: &JsonDocument) -> (result: Result<(), Error>)
    ensures
        outcome(result) == payload_outcome(operation@, payload@),
{
    match payload.get_int("errno") {
        Some(errno) => if errno == 0 {
            Ok(())
        } else {
            Err(api_payload_error(operation, payload))
        },
        None => Ok(()),
    }
}

/// Whether the body of the answer to an operation reports success.
pub fn ensure_pan_ok(operation: &str, body: &[u8]) -> (result: Result<(), Error>)
    ensures
        outcome(result) == answer_outcome(operation@, body@),
{
    match JsonDocument::parse(body) {
        Some(payload) => check_pan_payload(operation, &payload),
        None => Err(Error::Http("error decoding response body".to_owned())),
    }
}

/// Whether an HTTP status reports success.
pub fn is_success(status: u16) -> (result: bool)
    ensures
        result == (200 <= status < 300),
{
    200 <= status && status < 300
}

/// What a refused download is reported as, where the answer is JSON.
pub open spec fn download_payload_report(status: Seq<char>, payload: JsonDocumentView) -> Option<
    ErrorView,
> {
    let code = match payload.get("errno"@) {
        Some(value) => Some(value),
        None => payload.get("error_code"@),
    };
    match code {
        Some(JsonScalarView::Number(Some(code))) => Some(
            ErrorView::Api(
                "download failed with status="@ + status + " errno="@ + signed_numeral(code as int)
                    + hint_part(code as int) + message_part(payload) + ": "@ + payload.text,
            ),
        ),
        _ => None,
    }
}

/// What a refused download is reported as, given what its body is as JSON.
pub open spec fn download_report(
    status: Seq<char>,
    body: Seq<char>,
    payload: Option<JsonDocumentView>,
) -> ErrorView {
    let reported = match payload {
        Some(payload) => download_payload_report(status, payload),
        None => None,
    };
    match reported {
        Some(error) => error,
        None => ErrorView::Api("download failed with status="@ + status + ": "@ + trimmed(body)),
    }
}

/// What a refused download is reported as, given what its body is as JSON.
pub fn download_error(status: &str, body: &str, payload: Option<JsonDocument>) -> (result: Error)
    ensures
        result@ == download_report(
            status@,
            body@,
            match payload {
                Some(payload) => Some(payload@),
                None => None,
            },
        ),
{
    if let Some(payload) = payload {
        let code = match payload.get("errno") {
            Some(value) => Some(value),
            None => payload.get("error_code"),
        };
        if let Some(JsonScalar::Number(Some(code))) = code {
            let mut text = concat("download failed with status=", status);
            text.append(" errno=");
            text.append(signed_decimal(*code).as_str());
            text.append(hint_text(*code).as_str());
            text.append(message_text(&payload).as_str());
            text.append(": ");
            text.append(payload.text.as_str());
            return Error::Api(text);
        }
    }
    let mut text = concat("download failed with status=", status);
    text.append(": ");
    text.append(trim(body).as_str());
    Error::Api(text)
}

/// What a refused download is reported as.
pub fn download_payload_error(status: &str, body: &str) -> (result: Error)
    ensures
        result@ == download_report(
            status@,
            body@,
            json_document(vstd::utf8::encode_utf8(body@)),
        ),
{
    download_error(status, body, JsonDocument::parse(body.as_bytes()))
}

/// What a failure to locate the upload servers is reported as.
pub open spec fn locate_error(error_code: int, error_msg: Seq<char>) -> ErrorView {
    let extra = if error_msg.len() == 0 {
        ""@
    } else {
        ", message="@ + error_msg
    };
    ErrorView::Api(
        "locateupload failed with error_code="@ + signed_numeral(error_code) + hint_part(error_code)
            + extra,
    )
}

/// What a failure to locate the upload servers is reported as.
pub fn locateupload_payload_error(payload: &LocateUploadResponse) -> (result: Error)
    ensures
        result@ == locate_error(payload.error_code as int, payload.error_msg@),
{
    let mut text = concat(
        "locateupload failed with error_code=",
        signed_decimal(payload.error_code).as_str(),
    );
    text.append(hint_text(payload.error_code).as_str());
    let extra = if payload.error_msg.as_str().is_empty() {
        "".to_owned()
    } else {
        concat(", message=", payload.error_msg.as_str())
    };
    text.append(extra.as_str());
    Error::Api(text)
}

/// The names of a list of servers.
pub open spec fn server_names(servers: Seq<LocateUploadServer>) -> Seq<Seq<char>> {
    servers.map_values(|server: LocateUploadServer| server.server@)
}

/// The first server, trimmed, that is reached over HTTPS.
pub open spec fn first_https(servers: Seq<Seq<char>>) -> Option<Seq<char>>
    decreases servers.len(),
{
    if servers.len() == 0 {
        None
    } else if "https://"@.is_prefix_of(trimmed(servers[0])) {
        Some(trimmed(servers[0]))
    } else {
        first_https(servers.drop_first())
    }
}

/// The servers of an answer, those for backup last.
pub open spec fn all_servers(payload: LocateUploadResponse) -> Seq<Seq<char>> {
    server_names(payload.servers@) + server_names(payload.bak_servers@)
}

fn first_https_server(servers: &Vec<LocateUploadServer>, rest: Ghost<Seq<Seq<char>>>) -> (result:
    Option<String>)
    ensures
        match result {
            Some(host) => first_https(server_names(servers@) + rest@) == Some(host@),
            None => first_https(server_names(servers@) + rest@) == first_https(rest@),
        },
{
    let ghost all = server_names(servers@) + rest@;
    let mut i: usize = 0;
    assert(all.subrange(0, all.len() as int) == all);
    while i < servers.len()
        invariant
            i <= servers@.len(),
            all == server_names(servers@) + rest@,
            first_https(all) == first_https(all.subrange(i as int, all.len() as int)),
        decreases servers@.len() - i,
    {
        let ghost tail = all.subrange(i as int, all.len() as int);
        assert(tail[0] == servers@[i as int].server@);
        assert(tail.drop_first() == all.subrange(i + 1, all.len() as int));
        let host = trim(servers[i].server.as_str());
        if has_prefix(host.as_str(), "https://") {
            return Some(host);
        }
        i = i + 1;
    }
    assert(server_names(servers@).len() == servers@.len());
    assert(all.subrange(i as int, all.len() as int) =~= rest@);
    None
}

/// The first server that is reached over HTTPS. Those for backup come last.
pub fn pick_https_upload_host(payload: &LocateUploadResponse) -> (result: Option<String>)
    ensures
        text_view(result) == first_https(all_servers(*payload)),
{
    let ghost backup = server_names(payload.bak_servers@);
    match first_https_server(&payload.servers, Ghost(backup)) {
        Some(host) => Some(host),
        None => {
            assert(backup + Seq::empty() =~= backup);
            first_https_server(&payload.bak_servers, Ghost(Seq::empty()))
        },
    }
}

/// The server to send the blocks of an upload to.
pub open spec fn chosen_host(payload: LocateUploadResponse) -> Result<Seq<char>, ErrorView> {
    if payload.error_code != 0 {
        Err(locate_error(payload.error_code as int, payload.error_msg@))
    } else {
        match first_https(all_servers(payload)) {
            Some(host) => Ok(host),
            None => Err(ErrorView::Api("locateupload returned no https upload host"@)),
        }
    }
}

/// The server to send the blocks of an upload to.
pub fn upload_host(payload: &LocateUploadResponse) -> (result: Result<String, Error>)
    ensures
        outcome(result) == chosen_host(*payload),
{
    if payload.error_code != 0 {
        return Err(locateupload_payload_error(payload));
    }
    match pick_https_upload_host(payload) {
        Some(host) => Ok(host),
        None => Err(Error::Api("locateupload returned no https upload host".to_owned())),
    }
}

// Uploads.

/// Where the block at `index` starts. A file is uploaded in blocks of 4 MiB, of which only the last
/// one may be smaller.
pub open spec fn block_start(index: int) -> int {
    4194304 * index
}

/// How many bytes the block at `index` holds.
pub open spec fn block_len(total_size: int, index: int) -> int {
    if total_size - block_start(index) < 4194304 {
        total_size - block_start(index)
    } else {
        4194304
    }
}

/// Why a block that the platform asks for cannot be sent, if it cannot.
pub open spec fn block_error(total_size: int, total_parts: int, index: int) -> Option<ErrorView> {
    if index >= total_parts {
        Some(
            ErrorView::Api(
                "precreate returned unexpected part index "@ + numeral(index as nat)
                    + ", total parts="@ + numeral(total_parts as nat),
            ),
        )
    } else if block_start(index) > total_size {
        Some(
            ErrorView::Api(
                "computed upload offset "@ + numeral(block_start(index) as nat)
                    + " exceeds file size "@ + numeral(total_size as nat),
            ),
        )
    } else {
        None
    }
}

/// How many bytes a block holds.
pub fn upload_part_len(total_size: u64, total_parts: usize, partseq: usize) -> (result: Result<
    usize,
    Error,
>)
    requires
        partseq < total_parts ==> block_start(partseq as int) <= u64::MAX,
    ensures
        match block_error(total_size as int, total_parts as int, partseq as int) {
            Some(error) => result matches Err(reported) && reported@ == error,
            None => result == Ok::<usize, Error>(
                block_len(total_size as int, partseq as int) as usize,
            ),
        },
{
    if partseq >= total_parts {
        let mut text = concat(
            "precreate returned unexpected part index ",
            decimal(partseq as u64).as_str(),
        );
        text.append(", total parts=");
        text.append(decimal(total_parts as u64).as_str());
        return Err(Error::Api(text));
    }
    assert(4194304 * partseq <= u64::MAX);
    let start: u64 = partseq as u64 * UPLOAD_PART_SIZE as u64;
    if start > total_size {
        let mut text = concat("computed upload offset ", decimal(start).as_str());
        text.append(" exceeds file size ");
        text.append(decimal(total_size).as_str());
        return Err(Error::Api(text));
    }
    if total_size - start < UPLOAD_PART_SIZE as u64 {
        Ok((total_size - start) as usize)
    } else {
        Ok(UPLOAD_PART_SIZE)
    }
}

/// Why blocks that the platform asks for cannot be sent, if they cannot: for the first such block.
pub open spec fn blocks_error(total_size: int, total_parts: int, required: Seq<usize>) -> Option<
    ErrorView,
>
    decreases required.len(),
{
    if required.len() == 0 {
        None
    } else {
        match blocks_error(total_size, total_parts, required.drop_last()) {
            Some(error) => Some(error),
            None => block_error(total_size, total_parts, required.last() as int),
        }
    }
}

/// How many bytes blocks hold together.
pub open spec fn blocks_len(total_size: int, required: Seq<usize>) -> int
    decreases required.len(),
{
    if required.len() == 0 {
        0
    } else {
        blocks_len(total_size, required.drop_last()) + block_len(total_size, required.last() as int)
    }
}

/// How many bytes the platform has already, where it asks for these blocks.
pub open spec fn completed_len(total_size: int, required: Seq<usize>) -> int {
    if blocks_len(total_size, required) <= total_size {
        total_size - blocks_len(total_size, required)
    } else {
        0
    }
}

/// A block to send, and how far the upload is when it has been sent.
#[derive(Debug, Clone, Copy, PartialEq, Eq, Structural)]
pub struct UploadPart {
    pub index: usize,
    pub start: u64,
    pub len: usize,
    pub progress: u64,
}

/// The blocks to send, and how far the upload is before the first.
#[derive(Debug, Clone, PartialEq, Eq)]
pub struct UploadParts {
    pub completed: u64,
    pub parts: Vec<UploadPart>,
}

/// What is to be sent of the block at position `i` of the blocks asked for.
pub open spec fn part_at(total_size: int, required: Seq<usize>, i: int) -> UploadPart {
    UploadPart {
        index: required[i],
        start: block_start(required[i] as int) as u64,
        len: block_len(total_size, required[i] as int) as usize,
        progress: (completed_len(total_size, required) + blocks_len(total_size, required.take(i + 1)))
            as u64,
    }
}

impl UploadParts {
    /// These are the parts for the blocks asked for.
    pub open spec fn covers(&self, total_size: int, required: Seq<usize>) -> bool {
        &&& self.completed == completed_len(total_size, required)
        &&& self.parts@ == Seq::new(required.len(), |i: int| part_at(total_size, required, i))
    }
}

proof fn lemma_blocks_error(total_size: int, total_parts: int, required: Seq<usize>, k: int)
    requires
        0 <= k <= required.len(),
        blocks_error(total_size, total_parts, required.take(k)) is Some,
    ensures
        blocks_error(total_size, total_parts, required) == blocks_error(
            total_size,
            total_parts,
            required.take(k),
        ),
    decreases required.len(),
{
    if k == required.len() {
        assert(required.take(k) == required);
    } else {
        assert(required.drop_last().take(k) == required.take(k));
        lemma_blocks_error(total_size, total_parts, required.drop_last(), k);
    }
}

proof fn lemma_blocks_len(total_size: int, total_parts: int, required: Seq<usize>, k: int)
    requires
        0 <= k <= required.len(),
        blocks_error(total_size, total_parts, required) is None,
    ensures
        blocks_error(total_size, total_parts, required.take(k)) is None,
        0 <= blocks_len(total_size, required.take(k)) <= blocks_len(total_size, required),
        blocks_len(total_size, required) <= 4194304 * required.len(),
    decreases required.len(),
{
    if required.len() == 0 {
        assert(required.take(k) == required);
    } else if k == required.len() {
        assert(required.take(k) == required);
        lemma_blocks_len(total_size, total_parts, required.drop_last(), 0);
    } else {
        lemma_blocks_len(total_size, total_parts, required.drop_last(), k);
        assert(required.drop_last().take(k) == required.take(k));
    }
}

/// The blocks to send, where the platform asks for `required` of the `total_parts` that a file of
/// `total_size` bytes has.
pub fn upload_parts(total_size: u64, total_parts: usize, required: &[usize]) -> (result: Result<
    UploadParts,
    Error,
>)
    requires
        block_start(total_parts as int) <= u64::MAX,
        block_start(required@.len() as int) <= u64::MAX,
    ensures
        match blocks_error(total_size as int, total_parts as int, required@) {
            Some(error) => result matches Err(reported) && reported@ == error,
            None => result matches Ok(parts) && parts.covers(total_size as int, required@),
        },
{
    let ghost size = total_size as int;
    let ghost count = total_parts as int;
    let mut remaining: u64 = 0;
    let mut i: usize = 0;
    assert(required@.take(0) == Seq::<usize>::empty());
    while i < required.len()
        invariant
            i <= required@.len(),
            size == total_size,
            count == total_parts,
            block_start(total_parts as int) <= u64::MAX,
            block_start(required@.len() as int) <= u64::MAX,
            blocks_error(size, count, required@.take(i as int)) is None,
            remaining == blocks_len(size, required@.take(i as int)),
            remaining <= 4194304 * i,
        decreases required@.len() - i,
    {
        assert(required@.take(i + 1).drop_last() == required@.take(i as int));
        match upload_part_len(total_size, total_parts, required[i]) {
            Ok(len) => {
                remaining = remaining + len as u64;
            },
            Err(error) => {
                proof {
                    lemma_blocks_error(size, count, required@, i + 1);
                }
                return Err(error);
            },
        }
        i = i + 1;
    }
    assert(required@.take(i as int) == required@);
    let completed: u64 = if remaining <= total_size {
        total_size - remaining
    } else {
        0
    };
    let mut parts: Vec<UploadPart> = Vec::new();
    let mut transferred: u64 = 0;
    let mut i: usize = 0;
    while i < required.len()
        invariant
            i <= required@.len(),
            size == total_size,
            count == total_parts,
            block_start(total_parts as int) <= u64::MAX,
            blocks_error(size, count, required@) is None,
            remaining == blocks_len(size, required@),
            completed == completed_len(size, required@),
            transferred == blocks_len(size, required@.take(i as int)),
            parts@ == Seq::new(i as nat, |j: int| part_at(size, required@, j)),
        decreases required@.len() - i,
    {
        proof {
            lemma_blocks_len(size, count, required@, i + 1);
            assert(required@.take(i + 1).drop_last() == required@.take(i as int));
        }
        match upload_part_len(total_size, total_parts, required[i]) {
            Ok(len) => {
                transferred = transferred + len as u64;
                parts.push(
                    UploadPart {
                        index: required[i],
                        start: required[i] as u64 * UPLOAD_PART_SIZE as u64,
                        len,
                        progress: completed + transferred,
                    },
                );
            },
            Err(error) => {
                return Err(error);
            },
        }
        i = i + 1;
    }
    Ok(UploadParts { completed, parts })
}

/// An upload, as far as its requests say the same.
#[derive(Debug, Clone, PartialEq, Eq)]
pub struct UploadPlan {
    pub access_token: String,
    pub remote_path: String,
    pub block_list_json: String,
    pub size: u64,
    pub encrypted: bool,
    pub parts: usize,
    pub ondup: OnDuplicate,
}

#[verifier::ext_equal]
pub struct UploadPlanView {
    pub access_token: Seq<char>,
    pub remote_path: Seq<char>,
    pub block_list_json: Seq<char>,
    pub size: u64,
    pub encrypted: bool,
    pub parts: usize,
    pub ondup: OnDuplicate,
}

impl View for UploadPlan {
    type V = UploadPlanView;

    open spec fn view(&self) -> UploadPlanView {
        UploadPlanView {
            access_token: self.access_token@,
            remote_path: self.remote_path@,
            block_list_json: self.block_list_json@,
            size: self.size,
            encrypted: self.encrypted,
            parts: self.parts,
            ondup: self.ondup,
        }
    }
}

/// The plan for the upload of a file to a normalized path.
pub open spec fn upload_plan(
    request: UploadRequest,
    remote_path: Seq<char>,
    access_token: Seq<char>,
) -> UploadPlanView {
    UploadPlanView {
        access_token,
        remote_path,
        block_list_json: json_strings(text_views(request.block_list@)),
        size: request.size,
        encrypted: request.encrypted,
        parts: request.block_list@.len() as usize,
        ondup: request.ondup,
    }
}

/// A request with the parameters of an operation on files.
pub open spec fn xpan(
    method: Method,
    query: Seq<(Seq<char>, Seq<char>)>,
    form: Seq<(Seq<char>, Seq<char>)>,
) -> HttpRequestView {
    HttpRequestView { method, url: XPAN_FILE_API@, query, form, range: None }
}

/// The identifier of the upload to go on with, if there is one.
pub open spec fn resumed_upload(resume_uploadid: Option<&str>) -> Option<Seq<char>> {
    match resume_uploadid {
        Some(uploadid) if uploadid@.len() > 0 => Some(uploadid@),
        _ => None,
    }
}

/// The announcement of an upload. It names the upload that it goes on with, if there is one.
pub open spec fn precreate_request(plan: UploadPlanView, resumed: Option<Seq<char>>) -> HttpRequestView {
    let form = seq![
        ("path"@, plan.remote_path),
        ("size"@, numeral(plan.size as nat)),
        ("isdir"@, "0"@),
        ("autoinit"@, "1"@),
        ("rtype"@, rtype_of(plan.ondup)),
        ("block_list"@, plan.block_list_json),
    ];
    xpan(
        Method::Post,
        seq![("method"@, "precreate"@), ("access_token"@, plan.access_token)],
        match resumed {
            Some(uploadid) => form.push(("uploadid"@, uploadid)),
            None => form,
        },
    )
}

/// The question for the servers that take the blocks.
pub open spec fn locate_request_of(plan: UploadPlanView, uploadid: Seq<char>) -> HttpRequestView {
    HttpRequestView {
        query: seq![
            ("method"@, "locateupload"@),
            ("appid"@, UPLOAD_APP_ID@),
            ("access_token"@, plan.access_token),
            ("path"@, plan.remote_path),
            ("uploadid"@, uploadid),
            ("upload_version"@, UPLOAD_VERSION@),
        ],
        ..bare(Method::Get, LOCATE_UPLOAD_API@)
    }
}

/// The request that carries a block to a server.
pub open spec fn part_request_of(
    plan: UploadPlanView,
    host: Seq<char>,
    uploadid: Seq<char>,
    partseq: nat,
) -> HttpRequestView {
    HttpRequestView {
        query: seq![
            ("method"@, "upload"@),
            ("type"@, "tmpfile"@),
            ("path"@, plan.remote_path),
            ("uploadid"@, uploadid),
            ("partseq"@, numeral(partseq)),
            ("access_token"@, plan.access_token),
        ],
        ..bare(Method::Post, host + "/rest/2.0/pcs/superfile2"@)
    }
}

/// The request that turns the blocks into a file.
pub open spec fn create_request_of(plan: UploadPlanView, uploadid: Seq<char>) -> HttpRequestView {
    xpan(
        Method::Post,
        seq![("method"@, "create"@), ("access_token"@, plan.access_token)],
        seq![
            ("path"@, plan.remote_path),
            ("size"@, numeral(plan.size as nat)),
            ("isdir"@, "0"@),
            ("rtype"@, rtype_of(plan.ondup)),
            ("uploadid"@, uploadid),
            ("block_list"@, plan.block_list_json),
        ],
    )
}

/// What came of an upload. What the platform does not say is as it was asked for.
pub open spec fn summary_of(plan: UploadPlanView, created: CreateResponse) -> UploadSummaryView {
    UploadSummaryView {
        path: match created.path {
            Some(path) => path@,
            None => plan.remote_path,
        },
        fs_id: created.fs_id,
        size: match created.size {
            Some(size) => size,
            None => plan.size,
        },
        md5: text_view(created.md5),
        encrypted: plan.encrypted,
        parts: plan.parts,
    }
}

/// The blocks to send, given those that the platform asks for: all of them where it asks for none.
pub open spec fn required_parts(asked: Seq<usize>, parts: nat) -> Seq<usize> {
    if asked.len() == 0 {
        Seq::new(parts, |i: int| i as usize)
    } else {
        asked
    }
}

/// An upload that the platform knows, and the blocks that it lacks.
#[derive(Debug, Clone, PartialEq, Eq)]
pub struct UploadSession {
    pub uploadid: String,
    pub required_parts: Vec<usize>,
}

impl UploadPlan {
    /// The session that the platform's answer opens.
    pub fn session(&self, precreate: PrecreateResponse) -> (result: Result<UploadSession, Error>)
        ensures
            match precreate.uploadid {
                Some(uploadid) => result matches Ok(session) && session.uploadid@ == uploadid@
                    && session.required_parts@ == required_parts(
                    precreate.block_list@,
                    self.parts as nat,
                ),
                None => result matches Err(error) && error@ == ErrorView::Api(
                    "precreate response missing uploadid"@,
                ),
            },
    {
        let uploadid = match precreate.uploadid {
            Some(uploadid) => uploadid,
            None => {
                return Err(Error::Api("precreate response missing uploadid".to_owned()));
            },
        };
        if precreate.block_list.len() > 0 {
            return Ok(UploadSession { uploadid, required_parts: precreate.block_list });
        }
        let mut required: Vec<usize> = Vec::new();
        let mut i: usize = 0;
        while i < self.parts
            invariant
                i <= self.parts,
                required@ == Seq::new(i as nat, |j: int| j as usize),
            decreases self.parts - i,
        {
            required.push(i);
            i = i + 1;
        }
        Ok(UploadSession { uploadid, required_parts: required })
    }

    /// The question for the servers that take the blocks.
    pub fn locate_request(&self, uploadid: &str) -> (result: HttpRequest)
        ensures
            result@ == locate_request_of(self@, uploadid@),
    {
        HttpRequest::new(Method::Get, LOCATE_UPLOAD_API).query("method", "locateupload").query(
            "appid",
            UPLOAD_APP_ID,
        ).query("access_token", self.access_token.as_str()).query(
            "path",
            self.remote_path.as_str(),
        ).query("uploadid", uploadid).query("upload_version", UPLOAD_VERSION)
    }

    /// The request that carries a block to a server. The bytes go in a part of the body.
    pub fn part_request(&self, host: &str, uploadid: &str, partseq: usize) -> (result: HttpRequest)
        ensures
            result@ == part_request_of(self@, host@, uploadid@, partseq as nat),
    {
        HttpRequest::new(Method::Post, concat(host, "/rest/2.0/pcs/superfile2").as_str()).query(
            "method",
            "upload",
        ).query("type", "tmpfile").query("path", self.remote_path.as_str()).query(
            "uploadid",
            uploadid,
        ).query("partseq", decimal(partseq as u64).as_str()).query(
            "access_token",
            self.access_token.as_str(),
        )
    }

    /// The request that turns the blocks into a file.
    pub fn create_request(&self, uploadid: &str) -> (result: HttpRequest)
        ensures
            result@ == create_request_of(self@, uploadid@),
    {
        HttpRequest::new(Method::Post, XPAN_FILE_API).query("method", "create").query(
            "access_token",
            self.access_token.as_str(),
        ).form("path", self.remote_path.as_str()).form("size", decimal(self.size).as_str()).form(
            "isdir",
            "0",
        ).form("rtype", self.ondup.rtype()).form("uploadid", uploadid).form(
            "block_list",
            self.block_list_json.as_str(),
        )
    }

    /// What came of the upload. What the platform does not say is as it was asked for.
    pub fn summary(&self, created: CreateResponse) -> (result: UploadSummary)
        ensures
            result@ == summary_of(self@, created),
    {
        UploadSummary {
            path: match created.path {
                Some(path) => path,
                None => self.remote_path.clone(),
            },
            fs_id: created.fs_id,
            size: match created.size {
                Some(size) => size,
                None => self.size,
            },
            md5: created.md5,
            encrypted: self.encrypted,
            parts: self.parts,
        }
    }
}

/// The name under which a block is sent.
pub fn part_file_name(partseq: usize) -> (result: String)
    ensures
        result@ == "part-"@ + numeral(partseq as nat),
{
    concat("part-", decimal(partseq as u64).as_str())
}

// The client.

/// A change to remote files: what is to be done, and to which.
#[derive(Debug, Clone, PartialEq, Eq)]
pub struct FileJob {
    pub opera: String,
    pub filelist: String,
}

#[verifier::ext_equal]
pub struct FileJobView {
    pub opera: Seq<char>,
    pub filelist: Seq<char>,
}

impl View for FileJob {
    type V = FileJobView;

    open spec fn view(&self) -> FileJobView {
        FileJobView { opera: self.opera@, filelist: self.filelist@ }
    }
}

/// A job on files, where its list can be made.
pub open spec fn job(opera: Seq<char>, filelist: Result<Seq<char>, ErrorView>) -> Result<
    FileJobView,
    ErrorView,
> {
    match filelist {
        Ok(filelist) => Ok(FileJobView { opera, filelist }),
        Err(error) => Err(error),
    }
}

/// The question for the entries of a directory.
pub open spec fn list_request(dir: Seq<char>, access_token: Seq<char>) -> HttpRequestView {
    xpan(
        Method::Get,
        seq![("method"@, "list"@), ("dir"@, dir), ("access_token"@, access_token)],
        Seq::empty(),
    )
}

/// The request that makes a directory.
pub open spec fn mkdir_request(dir: Seq<char>, access_token: Seq<char>) -> HttpRequestView {
    xpan(
        Method::Post,
        seq![("method"@, "create"@), ("access_token"@, access_token)],
        seq![("path"@, dir), ("isdir"@, "1"@), ("size"@, "0"@), ("block_list"@, "[]"@)],
    )
}

/// The client of a user.
#[derive(Debug, Clone, PartialEq, Eq)]
pub struct PanClient {
    pub credentials: AppCredentials,
    pub token_store: TokenStore,
    pub oauth: OAuthClient,
}

impl PanClient {
    pub fn new(credentials: AppCredentials, token_store: TokenStore) -> (result: Result<
        PanClient,
        Error,
    >)
        ensures
            result == Ok::<PanClient, Error>(
                PanClient { credentials, token_store, oauth: OAuthClient },
            ),
    {
        Ok(PanClient { credentials, token_store, oauth: OAuthClient })
    }

    /// The question for the entries of a directory.
    pub fn list_dir(&self, path: &str, access_token: &str) -> (result: Result<HttpRequest, Error>)
        ensures
            outcome(result) == (match normalized_remote(path@) {
                Ok(dir) => Ok(list_request(dir, access_token@)),
                Err(error) => Err(error),
            }),
    {
        match normalize_remote_path(path) {
            Ok(dir) => {
                let request = HttpRequest::new(Method::Get, XPAN_FILE_API).query(
                    "method",
                    "list",
                ).query("dir", dir.as_str()).query("access_token", access_token);
                assert(request@ =~= list_request(dir@, access_token@));
                Ok(request)
            },
            Err(error) => Err(error),
        }
    }

    /// The request that makes a directory.
    pub fn mkdir(&self, path: &str, access_token: &str) -> (result: Result<HttpRequest, Error>)
        ensures
            outcome(result) == (match normalized_remote(path@) {
                Ok(dir) => Ok(mkdir_request(dir, access_token@)),
                Err(error) => Err(error),
            }),
    {
        match normalize_remote_path(path) {
            Ok(dir) => {
                let request = HttpRequest::new(Method::Post, XPAN_FILE_API).query(
                    "method",
                    "create",
                ).query("access_token", access_token).form("path", dir.as_str()).form(
                    "isdir",
                    "1",
                ).form("size", "0").form("block_list", "[]");
                assert(request@ =~= mkdir_request(dir@, access_token@));
                Ok(request)
            },
            Err(error) => Err(error),
        }
    }

    /// The job that deletes a file or directory.
    pub fn delete(&self, path: &str) -> (result: Result<FileJob, Error>)
        ensures
            outcome(result) == job(
                "delete"@,
                match normalized_remote(path@) {
                    Ok(path) => Ok(json_strings(seq![path])),
                    Err(error) => Err(error),
                },
            ),
    {
        let path = match normalize_remote_path(path) {
            Ok(path) => path,
            Err(error) => return Err(error),
        };
        let mut paths: Vec<String> = Vec::new();
        paths.push(path);
        assert(text_views(paths@) =~= seq![path@]);
        match strings_to_json(paths.as_slice()) {
            Ok(filelist) => Ok(FileJob { opera: "delete".to_owned(), filelist }),
            Err(text) => Err(Error::Json(text)),
        }
    }

    /// The job that moves a file or directory.
    pub fn move_path(&self, from: &str, to: &str) -> (result: Result<FileJob, Error>)
        ensures
            outcome(result) == job("move"@, relocation(from@, to@)),
    {
        match move_like_payload(from, to) {
            Ok(filelist) => Ok(FileJob { opera: "move".to_owned(), filelist }),
            Err(error) => Err(error),
        }
    }

    /// The job that copies a file or directory.
    pub fn copy_path(&self, from: &str, to: &str) -> (result: Result<FileJob, Error>)
        ensures
            outcome(result) == job("copy"@, relocation(from@, to@)),
    {
        match move_like_payload(from, to) {
            Ok(filelist) => Ok(FileJob { opera: "copy".to_owned(), filelist }),
            Err(error) => Err(error),
        }
    }

    /// The request that does a job.
    pub fn filemanager(&self, job: &FileJob, access_token: &str) -> (result: HttpRequest)
        ensures
            result@ == xpan(
                Method::Post,
                seq![
                    ("method"@, "filemanager"@),
                    ("opera"@, job@.opera),
                    ("async"@, "0"@),
                    ("access_token"@, access_token@),
                ],
                seq![("filelist"@, job@.filelist)],
            ),
    {
        HttpRequest::new(Method::Post, XPAN_FILE_API).query("method", "filemanager").query(
            "opera",
            job.opera.as_str(),
        ).query("async", "0").query("access_token", access_token).form(
            "filelist",
            job.filelist.as_str(),
        )
    }

    /// The plan for an upload, and the request that announces it.
    pub fn upload_file(&self, request: &UploadRequest, access_token: &str) -> (result: Result<
        (UploadPlan, HttpRequest),
        Error,
    >)
        ensures
            match normalized_remote(request.remote_path@) {
                Ok(path) => result matches Ok((plan, first)) && plan@ == upload_plan(
                    *request,
                    path,
                    access_token@,
                ) && first@ == precreate_request(
                    plan@,
                    resumed_upload(request.resume_uploadid),
                ),
                Err(error) => result matches Err(reported) && reported@ == error,
            },
    {
        let remote_path = match normalize_remote_path(request.remote_path) {
            Ok(path) => path,
            Err(error) => return Err(error),
        };
        let block_list_json = match strings_to_json(request.block_list) {
            Ok(text) => text,
            Err(text) => return Err(Error::Json(text)),
        };
        let mut first = HttpRequest::new(Method::Post, XPAN_FILE_API).query(
            "method",
            "precreate",
        ).query("access_token", access_token).form("path", remote_path.as_str()).form(
            "size",
            decimal(request.size).as_str(),
        ).form("isdir", "0").form("autoinit", "1").form("rtype", request.ondup.rtype()).form(
            "block_list",
            block_list_json.as_str(),
        );
        if let Some(uploadid) = request.resume_uploadid {
            if !uploadid.is_empty() {
                first = first.form("uploadid", uploadid);
            }
        }
        let plan = UploadPlan {
            access_token: access_token.to_owned(),
            remote_path,
            block_list_json,
            size: request.size,
            encrypted: request.encrypted,
            parts: request.block_list.len(),
            ondup: request.ondup,
        };
        Ok((plan, first))
    }
}

// Downloads.

/// Where an entry is looked for: the directory that holds it, and the name that it has there.
#[derive(Debug, Clone, PartialEq, Eq)]
pub struct EntryLookup {
    pub remote_path: String,
    pub parent: String,
    pub name: String,
}

/// Where the entry at a normalized path is looked for.
pub fn resolve_entry_by_path(remote_path: &str) -> (result: Result<EntryLookup, Error>)
    ensures
        match remote_name(remote_path@) {
            Some(name) => result matches Ok(lookup) && lookup.remote_path@ == remote_path@
                && lookup.parent@ == remote_parent(remote_path@) && lookup.name@ == name,
            None => result matches Err(error) && error@ == ErrorView::InvalidRemotePath(
                remote_path@,
            ),
        },
{
    match remote_file_name(remote_path) {
        Some(name) => Ok(
            EntryLookup {
                remote_path: remote_path.to_owned(),
                parent: parent_remote_dir(remote_path),
                name,
            },
        ),
        None => Err(Error::InvalidRemotePath(remote_path.to_owned())),
    }
}

/// The first entry that has the path or the name that is looked for.
pub open spec fn first_match(
    entries: Seq<RemoteEntry>,
    remote_path: Seq<char>,
    name: Seq<char>,
) -> Option<RemoteEntry>
    decreases entries.len(),
{
    if entries.len() == 0 {
        None
    } else if entries[0].path@ == remote_path || entries[0].server_filename@ == name {
        Some(entries[0])
    } else {
        first_match(entries.drop_first(), remote_path, name)
    }
}

impl EntryLookup {
    /// The first entry that is the one looked for.
    pub fn find(&self, entries: Vec<RemoteEntry>) -> (result: Result<RemoteEntry, Error>)
        ensures
            match first_match(entries@, self.remote_path@, self.name@) {
                Some(entry) => result == Ok::<RemoteEntry, Error>(entry),
                None => result matches Err(error) && error@ == ErrorView::Api(
                    "remote path not found: "@ + self.remote_path@,
                ),
            },
    {
        let mut list = entries;
        let ghost count = entries@.len() as int;
        let mut i: usize = 0;
        assert(entries@.subrange(0, count) =~= entries@);
        while i < list.len()
            invariant
                i <= list@.len() == count,
                list@ == entries@,
                first_match(entries@, self.remote_path@, self.name@) == first_match(
                    entries@.subrange(i as int, count),
                    self.remote_path@,
                    self.name@,
                ),
            decreases list@.len() - i,
        {
            let ghost rest = entries@.subrange(i as int, count);
            assert(rest[0] == entries@[i as int]);
            assert(rest.drop_first() =~= entries@.subrange(i + 1, count));
            if same_text(list[i].path.as_str(), self.remote_path.as_str()) || same_text(
                list[i].server_filename.as_str(),
                self.name.as_str(),
            ) {
                return Ok(list.remove(i));
            }
            i = i + 1;
        }
        Err(Error::Api(concat("remote path not found: ", self.remote_path.as_str())))
    }
}

/// The question for what the platform knows of a file.
pub open spec fn filemetas_request(fs_id: u64, dlink: bool, access_token: Seq<char>) -> HttpRequestView {
    xpan(
        Method::Get,
        seq![
            ("method"@, "filemetas"@),
            ("access_token"@, access_token),
            ("fsids"@, json_numbers(seq![fs_id])),
            (
                "dlink"@,
                if dlink {
                    "1"@
                } else {
                    "0"@
                },
            ),
        ],
        Seq::empty(),
    )
}

/// The question for what the platform knows of a file, with the link to its content if `dlink`.
pub fn get_file_metadata(entry: &RemoteEntry, dlink: bool, access_token: &str) -> (result: Result<
    HttpRequest,
    Error,
>)
    ensures
        result matches Ok(request) && request@ == filemetas_request(
            entry.fs_id,
            dlink,
            access_token@,
        ),
{
    let mut ids: Vec<u64> = Vec::new();
    ids.push(entry.fs_id);
    assert(ids@ =~= seq![entry.fs_id]);
    let fsids = match numbers_to_json(ids.as_slice()) {
        Ok(text) => text,
        Err(text) => return Err(Error::Json(text)),
    };
    let flag = if dlink {
        "1"
    } else {
        "0"
    };
    Ok(
        HttpRequest::new(Method::Get, XPAN_FILE_API).query("method", "filemetas").query(
            "access_token",
            access_token,
        ).query("fsids", fsids.as_str()).query("dlink", flag),
    )
}

/// What the platform knows of a file, out of its answer.
pub fn first_metadata(info: Vec<FileMetaEntry>, remote_path: &str) -> (result: Result<
    FileMetaEntry,
    Error,
>)
    ensures
        if info@.len() > 0 {
            result == Ok::<FileMetaEntry, Error>(info@[0])
        } else {
            result matches Err(error) && error@ == ErrorView::Api(
                "no metadata returned for "@ + remote_path@,
            )
        },
{
    let mut info = info;
    if info.len() > 0 {
        Ok(info.remove(0))
    } else {
        Err(Error::Api(concat("no metadata returned for ", remote_path)))
    }
}

/// What a download has to do.
#[derive(Debug, Clone, PartialEq, Eq)]
pub enum DownloadPlan {
    /// Everything is here already.
    Complete,
    /// Send this request.
    Fetch(HttpRequest),
}

#[verifier::ext_equal]
pub enum DownloadPlanView {
    Complete,
    Fetch(HttpRequestView),
}

impl View for DownloadPlan {
    type V = DownloadPlanView;

    open spec fn view(&self) -> DownloadPlanView {
        match *self {
            DownloadPlan::Complete => DownloadPlanView::Complete,
            DownloadPlan::Fetch(request) => DownloadPlanView::Fetch(request@),
        }
    }
}

/// The request for the content behind a link, from `resume_from` on.
pub open spec fn content_request(dlink: Seq<char>, resume_from: u64, access_token: Seq<char>) -> HttpRequestView {
    HttpRequestView {
        query: seq![("access_token"@, access_token)],
        range: if resume_from > 0 {
            Some("bytes="@ + numeral(resume_from as nat) + "-"@)
        } else {
            None
        },
        ..bare(Method::Get, dlink)
    }
}

/// What a download of a file has to do, where `resume_from` bytes of it are here already.
pub open spec fn download_plan(
    metadata: FileMetaEntry,
    resume_from: u64,
    access_token: Seq<char>,
) -> Result<DownloadPlanView, ErrorView> {
    if metadata.isdir == 1 {
        Err(
            ErrorView::Api(
                metadata.path@ + " is a directory; download currently supports files only"@,
            ),
        )
    } else if metadata.dlink is None {
        Err(ErrorView::Api("download link missing from metadata"@))
    } else if resume_from > metadata.size {
        Err(
            ErrorView::Api(
                "local partial file is larger than remote file for "@ + metadata.path@
                    + "; remove the partial file and retry"@,
            ),
        )
    } else if metadata.size > 0 && resume_from == metadata.size {
        Ok(DownloadPlanView::Complete)
    } else {
        Ok(
            DownloadPlanView::Fetch(
                content_request(metadata.dlink->0@, resume_from, access_token),
            ),
        )
    }
}

/// How the content is written: behind what is here already, or from the start; and how much of the
/// file is here.
#[derive(Debug, Clone, Copy, PartialEq, Eq, Structural)]
pub struct DownloadStart {
    pub append: bool,
    pub offset: u64,
}

impl DownloadStart {
    /// Counts bytes that have arrived and been written.
    pub fn advance(&mut self, len: usize)
        requires
            old(self).offset + len <= u64::MAX,
        ensures
            final(self).offset == old(self).offset + len,
            final(self).append == old(self).append,
    {
        self.offset = self.offset + len as u64;
    }
}

/// How the client comes by an access token.
#[derive(Debug, Clone, PartialEq, Eq)]
pub enum AccessPlan {
    /// The stored token is good.
    Use(String),
    /// Send this request, and go on as [`PanClient::refreshed`] says.
    Refresh(HttpRequest),
}

/// What comes of a refresh, where it brings a token with its JSON or fails: the access token to use,
/// and the steps that put the new token in the place of the old one. After a failure the old one
/// stays.
pub open spec fn refresh_outcome(
    store: Seq<u8>,
    refresh: Result<(StoredToken, Seq<u8>), ErrorView>,
) -> (Result<Seq<char>, ErrorView>, Seq<FileStepView>) {
    match refresh {
        Ok((token, json)) => (Ok(token.access_token@), replace_steps(store, json, true)),
        Err(error) => (Err(error), Seq::empty()),
    }
}

/// What a refresh brings, with the views of the JSON and of the error.
pub open spec fn refresh_view(refresh: Result<(StoredToken, Vec<u8>), Error>) -> Result<
    (StoredToken, Seq<u8>),
    ErrorView,
> {
    match refresh {
        Ok((token, json)) => Ok((token, json@)),
        Err(error) => Err(error@),
    }
}

impl PanClient {
    /// How to come by an access token at `now`.
    pub fn ensure_access_token(&self, token: &StoredToken, now: i64) -> (result: AccessPlan)
        requires
            now <= i64::MAX - 60,
        ensures
            if token.expires_at <= now + 60 {
                result matches AccessPlan::Refresh(request) && request@ == refresh_request(
                    self.credentials@.app_key,
                    self.credentials@.app_secret,
                    token.refresh_token@,
                )
            } else {
                result matches AccessPlan::Use(access_token) && access_token@
                    == token.access_token@
            },
    {
        if token.is_expired(now) {
            AccessPlan::Refresh(
                self.oauth.refresh_token(&self.credentials, token.refresh_token.as_str()),
            )
        } else {
            AccessPlan::Use(token.access_token.clone())
        }
    }

    /// The access token to use after a refresh, and the steps that store what it brought.
    pub fn refreshed(&self, refresh: Result<(StoredToken, Vec<u8>), Error>) -> (result: (
        Result<String, Error>,
        Vec<FileStep>,
    ))
        ensures
            (outcome(result.0), step_views(result.1@)) == refresh_outcome(
                self.token_store@,
                refresh_view(refresh),
            ),
    {
        match refresh {
            Ok((token, json)) => {
                let steps = self.token_store.save(json);
                (Ok(token.access_token), steps)
            },
            Err(error) => {
                let steps: Vec<FileStep> = Vec::new();
                assert(step_views(steps@) =~= Seq::empty());
                (Err(error), steps)
            },
        }
    }

    /// What a download of a file has to do, where `resume_from` bytes of it are here already.
    pub fn download_file(
        &self,
        metadata: &FileMetaEntry,
        resume_from: u64,
        access_token: &str,
    ) -> (result: Result<DownloadPlan, Error>)
        ensures
            outcome(result) == download_plan(*metadata, resume_from, access_token@),
            result matches Ok(DownloadPlan::Fetch(request)) ==> request@.range == (
            if resume_from > 0 {
                Some("bytes="@ + numeral(resume_from as nat) + "-"@)
            } else {
                None
            }),
    {
        if metadata.isdir == 1 {
            return Err(
                Error::Api(
                    concat(
                        metadata.path.as_str(),
                        " is a directory; download currently supports files only",
                    ),
                ),
            );
        }
        let dlink = match &metadata.dlink {
            Some(dlink) => dlink,
            None => {
                return Err(Error::Api("download link missing from metadata".to_owned()));
            },
        };
        if resume_from > metadata.size {
            let mut text = concat(
                "local partial file is larger than remote file for ",
                metadata.path.as_str(),
            );
            text.append("; remove the partial file and retry");
            return Err(Error::Api(text));
        }
        if metadata.size > 0 && resume_from == metadata.size {
            return Ok(DownloadPlan::Complete);
        }
        let mut request = HttpRequest::new(Method::Get, dlink.as_str()).query(
            "access_token",
            access_token,
        );
        if resume_from > 0 {
            let mut range = concat("bytes=", decimal(resume_from).as_str());
            range.append("-");
            request = request.range(range.as_str());
        }
        assert(request@ =~= content_request(dlink@, resume_from, access_token@));
        Ok(DownloadPlan::Fetch(request))
    }
}

impl DownloadSummary {
    /// The summary once the content has come to `local`.
    pub fn finished(self, local: LocalPath, decrypted: bool) -> (result: DownloadSummary)
        ensures
            result == (DownloadSummary { local_path: local, decrypted, ..self }),
    {
        DownloadSummary { local_path: local, decrypted, ..self }
    }
}

/// How the content is written, given the status of the answer: a partial answer goes on where the
/// file ends, any other starts again.
pub fn download_start(resume_from: u64, status: u16) -> (result: DownloadStart)
    ensures
        result == (if resume_from > 0 && status == 206 {
            DownloadStart { append: true, offset: resume_from }
        } else {
            DownloadStart { append: false, offset: 0 }
        }),
{
    if resume_from > 0 && status == 206 {
        DownloadStart { append: true, offset: resume_from }
    } else {
        DownloadStart { append: false, offset: 0 }
    }
}

/// What came of a download.
pub fn download_summary(metadata: &FileMetaEntry, destination: &LocalPath) -> (result: DownloadSummary)
    ensures
        result.remote_path@ == metadata.path@,
        result.local_path@ == destination@,
        result.size == metadata.size,
        !result.decrypted,
{
    DownloadSummary {
        remote_path: metadata.path.clone(),
        local_path: destination.clone(),
        size: metadata.size,
        decrypted: false,
    }
}

} // verus!
