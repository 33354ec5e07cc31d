//! What happens on the local side of a transfer: the digests and the resume state of an upload, the
//! sidecar files of a download, and the steps in between.
use vstd::prelude::*;
use vstd::slice::slice_subrange;
use vstd::utf8::encode_utf8;

use crate::api::{
    block_len, block_start, duplicate_policy, resumed_upload, OnDuplicate, UploadRequest,
};
use crate::config::{
    configured_crypto_passphrase, replace_file, replace_steps, ConfigValue, CRYPTO_PASSPHRASE_ENV,
};
use crate::crypto::{
    decrypt_bytes, decrypt_file_streaming, magic_v2, v1_opened, v2_opened,
};
use crate::error::{concat, error_message, outcome, Error, ErrorView};
use crate::files::{step_views, FileStep, FileStepView};
use crate::json::text_views;
use crate::path::{joined, lossy_text, parent_of, same_path, text_name_of, LocalPath};
use crate::text::{decimal, numeral, same_bytes, same_text};

verus! {

/// The size of the blocks that a file is uploaded in.
pub const UPLOAD_PART_SIZE: usize = 4194304;

// Digests.

/// The MD5 digest of a message, as hexadecimal digits in lower case.
pub uninterp spec fn md5_hex(message: Seq<u8>) -> Seq<char>;

/// A hexadecimal digit in lower case.
pub open spec fn is_hex(c: char) -> bool {
    '0' <= c <= '9' || 'a' <= c <= 'f'
}

/// `md5::compute`: the digest of the message, written as 32 hexadecimal digits in lower case. Which
/// digits they are is left to the name.
#[verifier::external_body]
fn md5(message: &[u8]) -> (result: String)
    ensures
        result@ == md5_hex(message@),
        result@.len() == 32,
        forall|i: int| 0 <= i < 32 ==> is_hex(#[trigger] result@[i]),
{
    format!("{:x}", md5::compute(message))
}

/// How many blocks hold a file of `size` bytes: one at least.
pub open spec fn block_count(size: nat) -> nat {
    if size == 0 {
        1
    } else {
        (size + 4194303) / 4194304
    }
}

/// The part of a file that the block at `index` holds.
pub open spec fn block_content(content: Seq<u8>, index: int) -> Seq<u8> {
    content.subrange(
        block_start(index),
        block_start(index) + block_len(content.len() as int, index),
    )
}

/// The digests of the blocks of a file, in order.
pub open spec fn block_digests(content: Seq<u8>) -> Seq<Seq<char>> {
    Seq::new(block_count(content.len()), |i: int| md5_hex(block_content(content, i)))
}

/// The digests of the blocks of a file that is read one block after the other.
#[derive(Debug, Clone, PartialEq, Eq)]
pub struct BlockList {
    pub digests: Vec<String>,
}

impl BlockList {
    pub fn new() -> (result: BlockList)
        ensures
            text_views(result.digests@) == Seq::<Seq<char>>::empty(),
    {
        let result = BlockList { digests: Vec::new() };
        assert(text_views(result.digests@) =~= Seq::<Seq<char>>::empty());
        result
    }

    /// Takes the next block.
    pub fn push(&mut self, block: &[u8])
        ensures
            text_views(final(self).digests@) == text_views(old(self).digests@).push(
                md5_hex(block@),
            ),
    {
        let ghost before = self.digests@;
        self.digests.push(md5(block));
        assert(text_views(self.digests@) =~= text_views(before).push(md5_hex(block@)));
    }

    /// The digests of all blocks. A file without content has one block, without content.
    pub fn finish(self) -> (result: Vec<String>)
        ensures
            text_views(result@) == (if self.digests@.len() == 0 {
                seq![md5_hex(Seq::empty())]
            } else {
                text_views(self.digests@)
            }),
    {
        let mut list = self;
        if list.digests.len() == 0 {
            let nothing: Vec<u8> = Vec::new();
            assert(nothing@ =~= Seq::<u8>::empty());
            list.push(nothing.as_slice());
            assert(text_views(self.digests@) =~= Seq::<Seq<char>>::empty());
            assert(text_views(list.digests@) =~= seq![md5_hex(Seq::empty())]);
        }
        list.digests
    }
}

// Uploads.

/// A file that is ready to be uploaded, encrypted or not.
#[derive(Debug, Clone, PartialEq, Eq)]
pub struct PreparedUpload {
    pub source: LocalPath,
    pub materialized: LocalPath,
    pub size: u64,
    pub encrypted: bool,
}

/// Where the bytes to upload come from.
#[derive(Debug, PartialEq, Eq)]
pub enum UploadSource {
    /// The file itself.
    Plain,
    /// The ciphertext that an earlier attempt left here.
    Cached(LocalPath),
    /// A ciphertext that is made here, after these steps.
    EncryptTo { steps: Vec<FileStep>, path: LocalPath },
    /// A ciphertext that is made in a temporary file.
    EncryptToTemp,
}

/// A kind of source, with the bytes of its paths.
#[verifier::ext_equal]
pub enum UploadSourceView {
    Plain,
    Cached(Seq<u8>),
    EncryptTo { steps: Seq<FileStepView>, path: Seq<u8> },
    EncryptToTemp,
}

impl View for UploadSource {
    type V = UploadSourceView;

    open spec fn view(&self) -> UploadSourceView {
        match *self {
            UploadSource::Plain => UploadSourceView::Plain,
            UploadSource::Cached(path) => UploadSourceView::Cached(path@),
            UploadSource::EncryptTo { steps, path } => UploadSourceView::EncryptTo {
                steps: step_views(steps@),
                path: path@,
            },
            UploadSource::EncryptToTemp => UploadSourceView::EncryptToTemp,
        }
    }
}

/// Where the bytes to upload come from, once it is known that there is a passphrase where one is
/// needed: `cache` is where a ciphertext is kept, if one is.
pub open spec fn upload_source(encrypt: bool, cache: Option<Seq<u8>>, cached: bool) -> UploadSourceView {
    match cache {
        _ if !encrypt => UploadSourceView::Plain,
        None => UploadSourceView::EncryptToTemp,
        Some(path) if cached => UploadSourceView::Cached(path),
        Some(path) => UploadSourceView::EncryptTo {
            steps: match parent_of(path) {
                Some(parent) => seq![FileStepView::CreateDir(parent)],
                None => Seq::empty(),
            },
            path,
        },
    }
}

/// What a session is known by: where the file is and how it was, and where it goes.
pub open spec fn session_text(
    path: Seq<u8>,
    remote: Seq<char>,
    size: u64,
    modified: u64,
    encrypt: bool,
) -> Seq<char> {
    lossy_text(path) + "|"@ + remote + "|"@ + numeral(size as nat) + "|"@ + numeral(modified as nat)
        + "|"@ + (if encrypt {
        "true"@
    } else {
        "false"@
    })
}

/// What is kept of an upload so that it can go on after an interruption.
#[derive(Debug, Clone, PartialEq, Eq)]
pub struct UploadResumeState {
    pub session_key: String,
    pub source_path: LocalPath,
    pub remote_path: String,
    pub materialized_path: LocalPath,
    pub size: u64,
    pub encrypted: bool,
    pub block_list: Vec<String>,
    pub uploadid: String,
}

#[verifier::ext_equal]
pub struct UploadResumeStateView {
    pub session_key: Seq<char>,
    pub source_path: Seq<u8>,
    pub remote_path: Seq<char>,
    pub materialized_path: Seq<u8>,
    pub size: u64,
    pub encrypted: bool,
    pub block_list: Seq<Seq<char>>,
    pub uploadid: Seq<char>,
}

impl View for UploadResumeState {
    type V = UploadResumeStateView;

    open spec fn view(&self) -> UploadResumeStateView {
        UploadResumeStateView {
            session_key: self.session_key@,
            source_path: self.source_path@,
            remote_path: self.remote_path@,
            materialized_path: self.materialized_path@,
            size: self.size,
            encrypted: self.encrypted,
            block_list: text_views(self.block_list@),
            uploadid: self.uploadid@,
        }
    }
}

/// A state is of an upload of the same bytes from the same place to the same place.
pub open spec fn compatible(
    state: UploadResumeStateView,
    source_path: Seq<u8>,
    remote_path: Seq<char>,
    materialized_path: Seq<u8>,
    size: u64,
    encrypted: bool,
    block_list: Seq<Seq<char>>,
) -> bool {
    &&& same_path(state.source_path, source_path)
    &&& state.remote_path == remote_path
    &&& same_path(state.materialized_path, materialized_path)
    &&& state.size == size
    &&& state.encrypted == encrypted
    &&& state.block_list == block_list
    &&& state.uploadid.len() > 0
}

fn same_texts(a: &[String], b: &[String]) -> (result: bool)
    ensures
        result == (text_views(a@) == text_views(b@)),
{
    if a.len() != b.len() {
        assert(text_views(a@).len() != text_views(b@).len());
        return false;
    }
    let mut i: usize = 0;
    while i < a.len()
        invariant
            i <= a@.len() == b@.len(),
            forall|j: int| 0 <= j < i ==> text_views(a@)[j] == text_views(b@)[j],
        decreases a@.len() - i,
    {
        if !same_text(a[i].as_str(), b[i].as_str()) {
            assert(text_views(a@)[i as int] != text_views(b@)[i as int]);
            return false;
        }
        i = i + 1;
    }
    assert(text_views(a@) =~= text_views(b@));
    true
}

fn copy_texts(texts: &[String]) -> (result: Vec<String>)
    ensures
        text_views(result@) == text_views(texts@),
{
    let mut result: Vec<String> = Vec::new();
    let mut i: usize = 0;
    while i < texts.len()
        invariant
            i <= texts@.len(),
            result@.len() == i,
            forall|j: int| 0 <= j < i ==> (#[trigger] result@[j])@ == texts@[j]@,
        decreases texts@.len() - i,
    {
        result.push(texts[i].clone());
        i = i + 1;
    }
    assert(text_views(result@) =~= text_views(texts@));
    result
}

impl UploadResumeState {
    /// Whether the state is of an upload of the same bytes from the same place to the same place.
    pub fn is_compatible(
        &self,
        source_path: &LocalPath,
        remote_path: &str,
        materialized_path: &LocalPath,
        size: u64,
        encrypted: bool,
        block_list: &[String],
    ) -> (result: bool)
        ensures
            result == compatible(
                self@,
                source_path@,
                remote_path@,
                materialized_path@,
                size,
                encrypted,
                text_views(block_list@),
            ),
    {
        self.source_path.same(source_path) && same_text(self.remote_path.as_str(), remote_path)
            && self.materialized_path.same(materialized_path) && self.size == size && self.encrypted
            == encrypted && same_texts(self.block_list.as_slice(), block_list)
            && !self.uploadid.as_str().is_empty()
    }

    /// The state of an upload that the platform knows as `uploadid`.
    pub fn of_session(
        session_key: &str,
        prepared: &PreparedUpload,
        remote_path: &str,
        block_list: &[String],
        uploadid: &str,
    ) -> (result: UploadResumeState)
        ensures
            result@ == (UploadResumeStateView {
                session_key: session_key@,
                source_path: prepared.source@,
                remote_path: remote_path@,
                materialized_path: prepared.materialized@,
                size: prepared.size,
                encrypted: prepared.encrypted,
                block_list: text_views(block_list@),
                uploadid: uploadid@,
            }),
    {
        UploadResumeState {
            session_key: session_key.to_owned(),
            source_path: prepared.source.clone(),
            remote_path: remote_path.to_owned(),
            materialized_path: prepared.materialized.clone(),
            size: prepared.size,
            encrypted: prepared.encrypted,
            block_list: copy_texts(block_list),
            uploadid: uploadid.to_owned(),
        }
    }
}

/// The upload to go on with: the one of the state, where it is of the same upload.
pub open spec fn kept_uploadid(
    state: Option<UploadResumeStateView>,
    source_path: Seq<u8>,
    remote_path: Seq<char>,
    materialized_path: Seq<u8>,
    size: u64,
    encrypted: bool,
    block_list: Seq<Seq<char>>,
) -> Option<Seq<char>> {
    match state {
        Some(state) if compatible(
            state,
            source_path,
            remote_path,
            materialized_path,
            size,
            encrypted,
            block_list,
        ) => Some(state.uploadid),
        _ => None,
    }
}

/// The view of a state, if there is one.
pub open spec fn state_view(state: Option<&UploadResumeState>) -> Option<UploadResumeStateView> {
    match state {
        Some(state) => Some(state@),
        None => None,
    }
}

/// The upload to go on with: the one of the state, where it is of the same upload.
pub fn resume_uploadid<'a>(
    state: Option<&'a UploadResumeState>,
    prepared: &PreparedUpload,
    remote_path: &str,
    block_list: &[String],
) -> (result: Option<&'a str>)
    ensures
        resumed_upload(result) == kept_uploadid(
            state_view(state),
            prepared.source@,
            remote_path@,
            prepared.materialized@,
            prepared.size,
            prepared.encrypted,
            text_views(block_list@),
        ),
        result is Some == resumed_upload(result) is Some,
{
    match state {
        Some(state) => if state.is_compatible(
            &prepared.source,
            remote_path,
            &prepared.materialized,
            prepared.size,
            prepared.encrypted,
            block_list,
        ) {
            Some(state.uploadid.as_str())
        } else {
            None
        },
        None => None,
    }
}

/// The request for an upload. It goes on with the upload of the state, where that is the same, and
/// overwrites an existing file by force only.
pub fn upload_request<'a>(
    prepared: &'a PreparedUpload,
    remote_path: &'a str,
    block_list: &'a [String],
    state: Option<&'a UploadResumeState>,
    force: bool,
) -> (result: UploadRequest<'a>)
    ensures
        result.local_path@ == prepared.materialized@,
        result.remote_path@ == remote_path@,
        result.size == prepared.size,
        result.block_list@ == block_list@,
        result.encrypted == prepared.encrypted,
        resumed_upload(result.resume_uploadid) == kept_uploadid(
            state_view(state),
            prepared.source@,
            remote_path@,
            prepared.materialized@,
            prepared.size,
            prepared.encrypted,
            text_views(block_list@),
        ),
        result.ondup == duplicate_policy(force),
{
    UploadRequest {
        local_path: &prepared.materialized,
        remote_path,
        size: prepared.size,
        block_list,
        encrypted: prepared.encrypted,
        resume_uploadid: resume_uploadid(state, prepared, remote_path, block_list),
        ondup: OnDuplicate::from_force(force),
    }
}

/// The directory that holds the states and ciphertexts of uploads.
#[derive(Debug, Clone, PartialEq, Eq)]
pub struct UploadStateStore {
    root: LocalPath,
}

impl View for UploadStateStore {
    type V = Seq<u8>;

    closed spec fn view(&self) -> Seq<u8> {
        self.root@
    }
}

/// Where a store keeps the ciphertext of a session.
pub open spec fn cache_path_of(root: Seq<u8>, session_key: Seq<char>) -> Seq<u8> {
    joined(joined(root, encode_utf8("cache"@)), encode_utf8(session_key + ".bin"@))
}

/// The steps after an upload: its state goes, and the ciphertext if there is one.
pub open spec fn cleanup_steps(state_path: Seq<u8>, materialized_path: Seq<u8>, encrypted: bool) -> Seq<
    FileStepView,
> {
    let state = seq![FileStepView::RemoveIfPresent(state_path)];
    if encrypted {
        state.push(FileStepView::RemoveIfPresent(materialized_path))
    } else {
        state
    }
}

/// A session key that is a plain file name.
pub open spec fn is_plain_key(session_key: Seq<char>) -> bool {
    !session_key.contains('/')
}

/// Where a store keeps the state of a session.
pub open spec fn state_path_of(root: Seq<u8>, session_key: Seq<char>) -> Seq<u8> {
    joined(joined(root, encode_utf8("sessions"@)), encode_utf8(session_key + ".json"@))
}

impl UploadStateStore {
    /// The store of the user whose configuration is in `config_dir`, if there is such a directory.
    pub fn for_current_user(config_dir: Option<LocalPath>) -> (result: Result<
        UploadStateStore,
        Error,
    >)
        ensures
            match config_dir {
                Some(dir) => result matches Ok(store) && store@ == joined(
                    dir@,
                    encode_utf8("uploads"@),
                ),
                None => result matches Err(error) && error@ == ErrorView::ConfigDirUnavailable,
            },
    {
        match config_dir {
            Some(dir) => Ok(UploadStateStore::new(dir.join("uploads"))),
            None => Err(Error::ConfigDirUnavailable),
        }
    }

    pub fn new(root: LocalPath) -> (result: UploadStateStore)
        ensures
            result@ == root@,
    {
        UploadStateStore { root }
    }

    /// What the upload of a file is known by. `source` is the full path of the file, `size` and
    /// `modified` are its length and when it was last changed.
    pub fn session_key(
        &self,
        source: &LocalPath,
        size: u64,
        modified: u64,
        remote: &str,
        encrypt: bool,
    ) -> (result: String)
        ensures
            result@ == md5_hex(
                encode_utf8(session_text(source@, remote@, size, modified, encrypt)),
            ),
            result@.len() == 32,
            forall|i: int| 0 <= i < 32 ==> is_hex(#[trigger] result@[i]),
            is_plain_key(result@),
    {
        let mut text = source.display();
        text.append("|");
        text.append(remote);
        text.append("|");
        text.append(decimal(size).as_str());
        text.append("|");
        text.append(decimal(modified).as_str());
        text.append("|");
        text.append(
            if encrypt {
                "true"
            } else {
                "false"
            },
        );
        md5(text.as_str().as_bytes())
    }

    /// Where the ciphertext of a session is kept.
    pub fn cache_path(&self, session_key: &str) -> (result: LocalPath)
        ensures
            result@ == cache_path_of(self@, session_key@),
    {
        self.root.join("cache").join(concat(session_key, ".bin").as_str())
    }

    /// Where the ciphertext of a session is kept, if it has one.
    pub fn session_cache(&self, session_key: &str, encrypt: bool) -> (result: Option<LocalPath>)
        ensures
            match result {
                Some(path) => encrypt && path@ == cache_path_of(self@, session_key@),
                None => !encrypt,
            },
    {
        if encrypt {
            Some(self.cache_path(session_key))
        } else {
            None
        }
    }

    /// Where the state of a session is kept.
    pub fn state_path(&self, session_key: &str) -> (result: LocalPath)
        ensures
            result@ == state_path_of(self@, session_key@),
    {
        self.root.join("sessions").join(concat(session_key, ".json").as_str())
    }

    /// The steps that keep a state, given its JSON.
    pub fn save(&self, state: &UploadResumeState, json: Vec<u8>) -> (result: Vec<FileStep>)
        ensures
            step_views(result@) == replace_steps(
                state_path_of(self@, state@.session_key),
                json@,
                false,
            ),
    {
        replace_file(&self.state_path(state.session_key.as_str()), json, false)
    }

    /// The steps that forget a state.
    pub fn remove(&self, session_key: &str) -> (result: Vec<FileStep>)
        ensures
            step_views(result@) == seq![
                FileStepView::RemoveIfPresent(state_path_of(self@, session_key@)),
            ],
    {
        let mut steps: Vec<FileStep> = Vec::new();
        steps.push(FileStep::RemoveIfPresent(self.state_path(session_key)));
        assert(step_views(steps@) =~= seq![
            FileStepView::RemoveIfPresent(state_path_of(self@, session_key@)),
        ]);
        steps
    }

    /// The steps after an upload: its state goes, and the ciphertext if there is one.
    pub fn cleanup_success(
        &self,
        session_key: &str,
        materialized_path: &LocalPath,
        encrypted: bool,
    ) -> (result: Vec<FileStep>)
        ensures
            step_views(result@) == cleanup_steps(
                state_path_of(self@, session_key@),
                materialized_path@,
                encrypted,
            ),
    {
        let mut steps = self.remove(session_key);
        let ghost before = steps@;
        if encrypted {
            steps.push(FileStep::RemoveIfPresent(materialized_path.clone()));
            assert(step_views(steps@) =~= step_views(before).push(
                FileStepView::RemoveIfPresent(materialized_path@),
            ));
        }
        steps
    }
}

// Downloads.

/// A download that is ready to start.
#[derive(Debug, Clone, PartialEq, Eq)]
pub struct PreparedDownload {
    pub remote_path: String,
    pub destination: LocalPath,
    pub temp_path: LocalPath,
    pub state_path: LocalPath,
    pub resume_from: u64,
    pub decrypt: bool,
}

#[verifier::ext_equal]
pub struct PreparedDownloadView {
    pub remote_path: Seq<char>,
    pub destination: Seq<u8>,
    pub temp_path: Seq<u8>,
    pub state_path: Seq<u8>,
    pub resume_from: u64,
    pub decrypt: bool,
}

impl View for PreparedDownload {
    type V = PreparedDownloadView;

    open spec fn view(&self) -> PreparedDownloadView {
        PreparedDownloadView {
            remote_path: self.remote_path@,
            destination: self.destination@,
            temp_path: self.temp_path@,
            state_path: self.state_path@,
            resume_from: self.resume_from,
            decrypt: self.decrypt,
        }
    }
}

/// What is kept of a download so that it can go on after an interruption.
#[derive(Debug, Clone, PartialEq, Eq)]
pub struct DownloadResumeState {
    pub remote_path: String,
    pub decrypt: bool,
}

/// What an earlier download left beside the destination.
#[derive(Debug, Clone, PartialEq, Eq)]
pub enum Sidecars {
    Absent,
    /// A state without a partial file, or the other way round.
    Stray,
    /// A state, and a partial file of this length.
    Found { state: DownloadResumeState, temp_len: u64 },
}

/// The path of a sidecar file of a destination: in the same directory, hidden.
pub open spec fn sidecar(destination: Seq<u8>, suffix: Seq<char>) -> Seq<u8> {
    let directory = match parent_of(destination) {
        Some(parent) if parent.len() > 0 => parent,
        _ => encode_utf8("."@),
    };
    let name = match text_name_of(destination) {
        Some(name) => name,
        None => "download"@,
    };
    joined(directory, encode_utf8("."@ + name + "."@ + suffix))
}

/// The path of a sidecar file of a destination.
pub fn sidecar_path(destination: &LocalPath, suffix: &str) -> (result: LocalPath)
    ensures
        result@ == sidecar(destination@, suffix@),
{
    let directory = match destination.parent() {
        Some(parent) => if parent.bytes.len() > 0 {
            parent
        } else {
            LocalPath::from_text(".")
        },
        None => LocalPath::from_text("."),
    };
    let name = match destination.file_name() {
        Some(name) => name,
        None => "download".to_owned(),
    };
    let mut file_name = concat(".", name.as_str());
    file_name.append(".");
    file_name.append(suffix);
    directory.join(file_name.as_str())
}

/// A partial file of this length is of the same download.
pub open spec fn resumable(sidecars: Sidecars, remote_path: Seq<char>, decrypt: bool) -> Option<u64> {
    match sidecars {
        Sidecars::Found { state, temp_len } if state.remote_path@ == remote_path && state.decrypt
            == decrypt => Some(temp_len),
        _ => None,
    }
}

/// What a download is prepared to. One that goes on has its partial file left in place.
pub open spec fn prepared_download(
    remote_path: Seq<char>,
    destination: Seq<u8>,
    decrypt: bool,
    sidecars: Sidecars,
) -> PreparedDownloadView {
    PreparedDownloadView {
        remote_path,
        destination,
        temp_path: sidecar(destination, "baidupan.part"@),
        state_path: sidecar(destination, "baidupan.resume.json"@),
        resume_from: match resumable(sidecars, remote_path, decrypt) {
            Some(len) => len,
            None => 0,
        },
        decrypt,
    }
}

/// The steps before a download: what is left of another one goes, and the state is kept.
pub open spec fn prepare_steps(
    prepared: PreparedDownloadView,
    sidecars: Sidecars,
    state_json: Seq<u8>,
) -> Seq<FileStepView> {
    let clean = if sidecars is Absent || resumable(
        sidecars,
        prepared.remote_path,
        prepared.decrypt,
    ) is Some {
        Seq::empty()
    } else {
        seq![
            FileStepView::RemoveIfPresent(prepared.temp_path),
            FileStepView::RemoveIfPresent(prepared.state_path),
        ]
    };
    clean.push(FileStepView::Write { path: prepared.state_path, content: state_json })
}

/// The steps after a download: the content goes to the destination, decrypted if that was asked
/// for, and the sidecar files go.
pub open spec fn finalize_steps(prepared: PreparedDownloadView, replace: bool) -> Seq<FileStepView> {
    if prepared.decrypt {
        seq![
            FileStepView::Decrypt { source: prepared.temp_path, destination: prepared.destination },
            FileStepView::RemoveIfPresent(prepared.temp_path),
            FileStepView::RemoveIfPresent(prepared.state_path),
        ]
    } else if replace {
        seq![
            FileStepView::RemoveIfPresent(prepared.destination),
            FileStepView::Rename { from: prepared.temp_path, to: prepared.destination },
            FileStepView::RemoveIfPresent(prepared.state_path),
        ]
    } else {
        seq![
            FileStepView::Rename { from: prepared.temp_path, to: prepared.destination },
            FileStepView::RemoveIfPresent(prepared.state_path),
        ]
    }
}

/// The error of a step of the encryption, seen from the transfer.
pub open spec fn as_crypto_error(error: ErrorView) -> ErrorView {
    ErrorView::Crypto(error_message(error))
}

/// The error of a step of the encryption, seen from the transfer.
pub fn crypto_failure(error: &Error) -> (result: Error)
    ensures
        result@ == as_crypto_error(error@),
{
    Error::Crypto(error.to_string())
}

/// A file is encrypted in chunks.
pub open spec fn is_chunked(file: Seq<u8>) -> bool {
    file.len() >= 8 && file.subrange(0, 8) == magic_v2()
}

/// Whether a file is encrypted in chunks. The first eight bytes of it are enough to tell.
pub fn chunked(file: &[u8]) -> (result: bool)
    ensures
        result == is_chunked(file@),
{
    if file.len() < 8 {
        return false;
    }
    let magic: Vec<u8> = vec![0x42, 0x44, 0x50, 0x45, 0x4e, 0x43, 0x32, 0x00];
    assert(magic@ =~= magic_v2());
    same_bytes(slice_subrange(file, 0, 8), magic.as_slice())
}

/// What a downloaded file decrypts to, in whichever format it is.
pub open spec fn downloaded_content(file: Seq<u8>, passphrase: Seq<char>) -> Result<
    Seq<u8>,
    ErrorView,
> {
    if is_chunked(file) {
        match v2_opened(file, passphrase) {
            Ok(content) => Ok(content),
            Err(error) => Err(as_crypto_error(error)),
        }
    } else {
        v1_opened(file, passphrase)
    }
}

/// There is no encryption and no decryption without a passphrase.
pub open spec fn missing_passphrase() -> ErrorView {
    ErrorView::Crypto(
        "encryption/decryption requires "@ + CRYPTO_PASSPHRASE_ENV@ + " environment variable"@,
    )
}

/// The passphrase that a setting gives.
pub open spec fn passphrase_of(setting: Option<Seq<char>>) -> Result<Seq<char>, ErrorView> {
    match setting {
        Some(passphrase) => Ok(passphrase),
        None => Err(missing_passphrase()),
    }
}

/// The passphrase for encrypted files.
pub fn read_passphrase(setting: ConfigValue) -> (result: Result<String, Error>)
    ensures
        outcome(result) == passphrase_of(setting.value()),
{
    match configured_crypto_passphrase(setting) {
        Some(passphrase) => Ok(passphrase),
        None => {
            let mut text = concat("encryption/decryption requires ", CRYPTO_PASSPHRASE_ENV);
            text.append(" environment variable");
            Err(Error::Crypto(text))
        },
    }
}

/// Says what is to be done before and after a transfer.
#[derive(Debug, Clone, Copy, PartialEq, Eq, Structural)]
pub struct TransferPlanner;

impl TransferPlanner {
    pub fn new() -> (result: Result<TransferPlanner, Error>)
        ensures
            result == Ok::<TransferPlanner, Error>(TransferPlanner),
    {
        Ok(TransferPlanner)
    }

    /// Where the bytes to upload come from, where no ciphertext is kept.
    pub fn prepare_upload(&self, encrypt: bool, setting: ConfigValue) -> (result: Result<
        UploadSource,
        Error,
    >)
        ensures
            outcome(result) == (if encrypt && setting.value() is None {
                Err(missing_passphrase())
            } else {
                Ok(upload_source(encrypt, None, false))
            }),
    {
        self.prepare_upload_with_cache(encrypt, None, false, setting)
    }

    /// Where the bytes to upload come from. `cached` says whether there is a file at `cache_path`,
    /// and `setting` is that of the passphrase, without which nothing is encrypted.
    pub fn prepare_upload_with_cache(
        &self,
        encrypt: bool,
        cache_path: Option<&LocalPath>,
        cached: bool,
        setting: ConfigValue,
    ) -> (result: Result<UploadSource, Error>)
        ensures
            outcome(result) == (if encrypt && setting.value() is None {
                Err(missing_passphrase())
            } else {
                Ok(
                    upload_source(
                        encrypt,
                        match cache_path {
                            Some(path) => Some(path@),
                            None => None,
                        },
                        cached,
                    ),
                )
            }),
    {
        if !encrypt {
            return Ok(UploadSource::Plain);
        }
        if let Err(error) = read_passphrase(setting) {
            return Err(error);
        }
        match cache_path {
            None => Ok(UploadSource::EncryptToTemp),
            Some(path) => {
                if cached {
                    return Ok(UploadSource::Cached(path.clone()));
                }
                let mut steps: Vec<FileStep> = Vec::new();
                if let Some(parent) = path.parent() {
                    steps.push(FileStep::CreateDir(parent));
                }
                assert(step_views(steps@) =~= match parent_of(path@) {
                    Some(parent) => seq![FileStepView::CreateDir(parent)],
                    None => Seq::empty(),
                });
                Ok(UploadSource::EncryptTo { steps, path: path.clone() })
            },
        }
    }

    /// A file that is ready to be uploaded: itself, or its ciphertext, of `size` bytes.
    pub fn prepared_upload(&self, local: &LocalPath, ciphertext: Option<LocalPath>, size: u64) -> (result:
        PreparedUpload)
        ensures
            result.source@ == local@,
            result.materialized@ == (match ciphertext {
                Some(path) => path@,
                None => local@,
            }),
            result.size == size,
            result.encrypted == ciphertext is Some,
    {
        let encrypted = ciphertext.is_some();
        PreparedUpload {
            source: local.clone(),
            materialized: match ciphertext {
                Some(path) => path,
                None => local.clone(),
            },
            size,
            encrypted,
        }
    }

    /// Whether a download may write to its destination.
    pub fn assert_download_target(&self, local: &LocalPath, exists: bool, force: bool) -> (result:
        Result<(), Error>)
        ensures
            outcome(result) == (if exists && !force {
                Err(
                    ErrorView::Api(
                        "destination "@ + lossy_text(local@) + " exists; rerun with --force"@,
                    ),
                )
            } else {
                Ok(())
            }),
    {
        if exists && !force {
            let mut text = concat("destination ", local.display().as_str());
            text.append(" exists; rerun with --force");
            return Err(Error::Api(text));
        }
        Ok(())
    }

    /// A download that is ready to start, after these steps. `exists` says whether there is a file
    /// at the destination, and `state_json` is the state to keep.
    pub fn prepare_download(
        &self,
        remote_path: &str,
        destination: &LocalPath,
        decrypt: bool,
        force: bool,
        exists: bool,
        sidecars: &Sidecars,
        state_json: Vec<u8>,
    ) -> (result: Result<(PreparedDownload, Vec<FileStep>), Error>)
        ensures
            if exists && !force {
                result matches Err(error) && error@ == ErrorView::Api(
                    "destination "@ + lossy_text(destination@) + " exists; rerun with --force"@,
                )
            } else {
                result matches Ok((prepared, steps)) && prepared@ == prepared_download(
                    remote_path@,
                    destination@,
                    decrypt,
                    *sidecars,
                ) && step_views(steps@) == prepare_steps(prepared@, *sidecars, state_json@)
            },
    {
        if let Err(error) = self.assert_download_target(destination, exists, force) {
            return Err(error);
        }
        let temp_path = sidecar_path(destination, "baidupan.part");
        let state_path = sidecar_path(destination, "baidupan.resume.json");
        let mut resume_from: u64 = 0;
        let mut clean = true;
        match sidecars {
            Sidecars::Absent => {
                clean = false;
            },
            Sidecars::Stray => {},
            Sidecars::Found { state, temp_len } => {
                if same_text(state.remote_path.as_str(), remote_path) && state.decrypt == decrypt {
                    resume_from = *temp_len;
                    clean = false;
                }
            },
        }
        let mut steps: Vec<FileStep> = Vec::new();
        if clean {
            steps.push(FileStep::RemoveIfPresent(temp_path.clone()));
            steps.push(FileStep::RemoveIfPresent(state_path.clone()));
        }
        let ghost json = state_json@;
        steps.push(FileStep::Write { path: state_path.clone(), content: state_json });
        let prepared = PreparedDownload {
            remote_path: remote_path.to_owned(),
            destination: destination.clone(),
            temp_path,
            state_path,
            resume_from,
            decrypt,
        };
        assert(step_views(steps@) =~= prepare_steps(prepared@, *sidecars, json));
        Ok((prepared, steps))
    }

    /// Decrypts a downloaded file. Its first bytes tell the format that it is in. `setting` is that
    /// of the passphrase, without which nothing is decrypted.
    pub fn decrypt_downloaded_file(&self, source: &[u8], setting: ConfigValue) -> (result: Result<
        Vec<u8>,
        Error,
    >)
        ensures
            outcome(result) == (match passphrase_of(setting.value()) {
                Ok(passphrase) => downloaded_content(source@, passphrase),
                Err(error) => Err(error),
            }),
    {
        let passphrase = match read_passphrase(setting) {
            Ok(passphrase) => passphrase,
            Err(error) => return Err(error),
        };
        if chunked(source) {
            match decrypt_file_streaming(source, passphrase.as_str()) {
                Ok(content) => Ok(content),
                Err(error) => Err(crypto_failure(&error)),
            }
        } else {
            decrypt_bytes(source, passphrase.as_str())
        }
    }

    /// The digests of the blocks of a file.
    pub fn block_list(&self, source: &[u8]) -> (result: Vec<String>)
        ensures
            text_views(result@) == block_digests(source@),
    {
        let mut list = BlockList::new();
        let mut at: usize = 0;
        let ghost mut count: nat = 0;
        while at < source.len()
            invariant
                at <= source@.len(),
                at < source@.len() ==> at == 4194304 * count,
                at == source@.len() && at > 0 ==> count == block_count(source@.len()),
                at == 0 ==> count == 0,
                text_views(list.digests@) == Seq::new(
                    count,
                    |i: int| md5_hex(block_content(source@, i)),
                ),
            decreases source@.len() - at,
        {
            let end: usize = if source.len() - at > UPLOAD_PART_SIZE {
                at + UPLOAD_PART_SIZE
            } else {
                source.len()
            };
            let block = slice_subrange(source, at, end);
            assert(block@ =~= block_content(source@, count as int));
            list.push(block);
            proof {
                count = count + 1;
                assert(text_views(list.digests@) =~= Seq::new(
                    count,
                    |i: int| md5_hex(block_content(source@, i)),
                ));
            }
            at = end;
        }
        assert(text_views(list.digests@).len() == list.digests@.len());
        proof {
            if source@.len() == 0 {
                assert(block_content(source@, 0) =~= Seq::<u8>::empty());
                assert(seq![md5_hex(Seq::empty())] =~= block_digests(source@));
            }
        }
        list.finish()
    }

    /// The steps after a download. `exists` says whether there is a file at the destination, and
    /// `setting` is that of the passphrase, without which nothing is decrypted.
    pub fn finalize_download(
        &self,
        prepared: &PreparedDownload,
        force: bool,
        exists: bool,
        setting: ConfigValue,
    ) -> (result: Result<Vec<FileStep>, Error>)
        ensures
            if prepared.decrypt && setting.value() is None {
                result matches Err(error) && error@ == missing_passphrase()
            } else {
                result matches Ok(steps) && step_views(steps@) == finalize_steps(
                    prepared@,
                    force && exists,
                )
            },
    {
        let mut steps: Vec<FileStep> = Vec::new();
        if prepared.decrypt {
            if let Err(error) = read_passphrase(setting) {
                return Err(error);
            }
            steps.push(
                FileStep::Decrypt {
                    source: prepared.temp_path.clone(),
                    destination: prepared.destination.clone(),
                },
            );
            steps.push(FileStep::RemoveIfPresent(prepared.temp_path.clone()));
        } else {
            if force && exists {
                steps.push(FileStep::RemoveIfPresent(prepared.destination.clone()));
            }
            steps.push(
                FileStep::Rename {
                    from: prepared.temp_path.clone(),
                    to: prepared.destination.clone(),
                },
            );
        }
        steps.push(FileStep::RemoveIfPresent(prepared.state_path.clone()));
        assert(step_views(steps@) =~= finalize_steps(prepared@, force && exists));
        Ok(steps)
    }
}

} // verus!
