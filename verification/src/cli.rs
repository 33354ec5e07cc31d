//! The commands: what they stand for on the remote side, and what is shown of them.
use vstd::prelude::*;

use crate::api::{DownloadSummary, RemoteEntry, UploadSummary};
use crate::auth::{poll_interval, poll_interval_of, DeviceCodeResponse};
use crate::batch::{BatchTask, TaskOutput};
use crate::config::{app_root_of, masked, AppCredentials, StoredToken};
use crate::error::{concat, error_message, outcome, Error, ErrorView};
use crate::json::text_views;
use crate::path::{lossy_text, text_name_of, LocalPath};
use crate::text::{
    decimal, drop_leading, drop_trailing, ends_with_slash, has_prefix, numeral, same_text,
    signed_decimal, signed_numeral, slash, trim, trim_leading_slashes, trim_trailing_slashes,
    trimmed,
};

verus! {

/// The command line.
#[derive(Debug, Clone, PartialEq, Eq)]
pub struct BaidupanCli {
    pub json: bool,
    pub verbose: u8,
    pub command: Commands,
}

#[derive(Debug, Clone, PartialEq, Eq)]
pub enum Commands {
    Login,
    Logout,
    Whoami,
    Ls { path: String },
    Mkdir { path: String },
    Rm { path: String },
    Mv { from: String, to: String },
    Cp { from: String, to: String },
    Upload { local: LocalPath, remote: String, encrypt: bool, force: bool },
    Download { remote: String, local: LocalPath, decrypt: bool, force: bool },
    Batch { file: LocalPath, continue_on_error: bool },
}

impl Commands {
    /// The task that the command is, if it is one.
    pub fn into_task(self) -> (result: Option<BatchTask>)
        ensures
            result == (match self {
                Commands::Mkdir { path } => Some(BatchTask::Mkdir { path }),
                Commands::Rm { path } => Some(BatchTask::Rm { path }),
                Commands::Mv { from, to } => Some(BatchTask::Mv { from, to }),
                Commands::Cp { from, to } => Some(BatchTask::Cp { from, to }),
                Commands::Upload { local, remote, encrypt, force } => Some(
                    BatchTask::Upload { local, remote, encrypt, force },
                ),
                Commands::Download { remote, local, decrypt, force } => Some(
                    BatchTask::Download { remote, local, decrypt, force },
                ),
                _ => None,
            }),
    {
        match self {
            Commands::Mkdir { path } => Some(BatchTask::Mkdir { path }),
            Commands::Rm { path } => Some(BatchTask::Rm { path }),
            Commands::Mv { from, to } => Some(BatchTask::Mv { from, to }),
            Commands::Cp { from, to } => Some(BatchTask::Cp { from, to }),
            Commands::Upload { local, remote, encrypt, force } => Some(
                BatchTask::Upload { local, remote, encrypt, force },
            ),
            Commands::Download { remote, local, decrypt, force } => Some(
                BatchTask::Download { remote, local, decrypt, force },
            ),
            _ => None,
        }
    }
}

/// The level of detail of the log.
pub fn log_filter(verbose: u8) -> (result: &'static str)
    ensures
        result@ == (if verbose == 0 {
            "warn"@
        } else if verbose == 1 {
            "info"@
        } else {
            "debug"@
        }),
{
    match verbose {
        0 => "warn",
        1 => "info",
        _ => "debug",
    }
}

/// How far a progress bar stands: no further than its end.
pub fn progress_position(current: u64, total: u64) -> (result: u64)
    ensures
        result == (if current < total {
            current
        } else {
            total
        }),
{
    if current < total {
        current
    } else {
        total
    }
}

// Remote paths.

/// A path that names the root of the application is refused.
pub open spec fn scoped_error(app_name: Seq<char>, path: Seq<char>) -> ErrorView {
    ErrorView::InvalidRemotePath(
        path
            + " (do not include the /apps/<app_name> prefix; commands are scoped to "@
            + app_root_of(app_name) + ")"@,
    )
}

/// The path that a user writes, seen from the root of the application.
pub open spec fn relative(path: Seq<char>) -> Seq<char> {
    drop_leading(trimmed(path), slash())
}

/// A path, trimmed or relative, names the root of the application.
pub open spec fn names_app_root(app_name: Seq<char>, path: Seq<char>) -> bool {
    let prefix = "apps/"@ + app_name;
    ||| "/apps/"@.is_prefix_of(trimmed(path))
    ||| relative(path) == prefix
    ||| (prefix + "/"@).is_prefix_of(relative(path))
}

/// The remote path that a user means by `path`.
pub open spec fn resolved(app_name: Seq<char>, path: Seq<char>) -> Result<Seq<char>, ErrorView> {
    if trimmed(path).len() == 0 {
        Err(ErrorView::InvalidRemotePath(path))
    } else if trimmed(path) == "/"@ {
        Ok(app_root_of(app_name))
    } else if names_app_root(app_name, path) {
        Err(scoped_error(app_name, path))
    } else {
        Ok(app_root_of(app_name) + "/"@ + relative(path))
    }
}

fn scoped_failure(credentials: &AppCredentials, path: &str) -> (result: Error)
    ensures
        result@ == scoped_error(credentials@.app_name, path@),
{
    let mut text = concat(
        path,
        " (do not include the /apps/<app_name> prefix; commands are scoped to ",
    );
    text.append(credentials.app_root().as_str());
    text.append(")");
    Error::InvalidRemotePath(text)
}

/// The remote path that a user means by `path`.
pub fn resolve_remote_path(credentials: &AppCredentials, path: &str) -> (result: Result<
    String,
    Error,
>)
    ensures
        outcome(result) == resolved(credentials@.app_name, path@),
{
    let text = trim(path);
    if text.as_str().is_empty() {
        return Err(Error::InvalidRemotePath(path.to_owned()));
    }
    if same_text(text.as_str(), "/") {
        return Ok(credentials.app_root());
    }
    if has_prefix(text.as_str(), "/apps/") {
        return Err(scoped_failure(credentials, path));
    }
    let relative = trim_leading_slashes(text.as_str());
    let prefix = concat("apps/", credentials.app_name.as_str());
    if same_text(relative.as_str(), prefix.as_str()) || has_prefix(
        relative.as_str(),
        concat(prefix.as_str(), "/").as_str(),
    ) {
        return Err(scoped_failure(credentials, path));
    }
    let mut result = concat(credentials.app_root().as_str(), "/");
    result.append(relative.as_str());
    Ok(result)
}

/// The text stands for a directory.
pub open spec fn names_directory(remote: Seq<char>) -> bool {
    trimmed(remote).len() > 0 && trimmed(remote).last() == '/'
}

/// The remote path that a file goes to: where `remote` stands for a directory, it keeps its name.
pub open spec fn resolved_upload(app_name: Seq<char>, local: Seq<u8>, remote: Seq<char>) -> Result<
    Seq<char>,
    ErrorView,
> {
    match resolved(app_name, remote) {
        Err(error) => Err(error),
        Ok(path) => if names_directory(remote) {
            match text_name_of(local) {
                Some(name) => Ok(drop_trailing(path, slash()) + "/"@ + name),
                None => Err(ErrorView::InvalidRemotePath(lossy_text(local))),
            }
        } else {
            Ok(path)
        },
    }
}

/// The remote path that a file goes to.
pub fn resolve_upload_remote_path(credentials: &AppCredentials, local: &LocalPath, remote: &str) -> (result:
    Result<String, Error>)
    ensures
        outcome(result) == resolved_upload(credentials@.app_name, local@, remote@),
{
    let text = trim(remote);
    let path = match resolve_remote_path(credentials, remote) {
        Ok(path) => path,
        Err(error) => return Err(error),
    };
    if ends_with_slash(text.as_str()) {
        let name = match local.file_name() {
            Some(name) => name,
            None => return Err(Error::InvalidRemotePath(local.display())),
        };
        let mut result = concat(trim_trailing_slashes(path.as_str()).as_str(), "/");
        result.append(name.as_str());
        return Ok(result);
    }
    Ok(path)
}

// Tasks.

/// A task with the remote paths of the platform.
#[derive(Debug, Clone, PartialEq, Eq)]
pub enum Action {
    Mkdir { path: String },
    Rm { path: String },
    Mv { from: String, to: String },
    Cp { from: String, to: String },
    Upload { local: LocalPath, remote: String, encrypt: bool, force: bool },
    Download { remote: String, local: LocalPath, decrypt: bool, force: bool },
}

#[verifier::ext_equal]
pub enum ActionView {
    Mkdir { path: Seq<char> },
    Rm { path: Seq<char> },
    Mv { from: Seq<char>, to: Seq<char> },
    Cp { from: Seq<char>, to: Seq<char> },
    Upload { local: Seq<u8>, remote: Seq<char>, encrypt: bool, force: bool },
    Download { remote: Seq<char>, local: Seq<u8>, decrypt: bool, force: bool },
}

impl View for Action {
    type V = ActionView;

    open spec fn view(&self) -> ActionView {
        match *self {
            Action::Mkdir { path } => ActionView::Mkdir { path: path@ },
            Action::Rm { path } => ActionView::Rm { path: path@ },
            Action::Mv { from, to } => ActionView::Mv { from: from@, to: to@ },
            Action::Cp { from, to } => ActionView::Cp { from: from@, to: to@ },
            Action::Upload { local, remote, encrypt, force } => ActionView::Upload {
                local: local@,
                remote: remote@,
                encrypt,
                force,
            },
            Action::Download { remote, local, decrypt, force } => ActionView::Download {
                remote: remote@,
                local: local@,
                decrypt,
                force,
            },
        }
    }
}

/// What a task comes to on the platform. Of two paths the first is looked at first.
pub open spec fn action_of(app_name: Seq<char>, task: BatchTask) -> Result<ActionView, ErrorView> {
    match task {
        BatchTask::Mkdir { path } => match resolved(app_name, path@) {
            Ok(path) => Ok(ActionView::Mkdir { path }),
            Err(error) => Err(error),
        },
        BatchTask::Rm { path } => match resolved(app_name, path@) {
            Ok(path) => Ok(ActionView::Rm { path }),
            Err(error) => Err(error),
        },
        BatchTask::Mv { from, to } => match (resolved(app_name, from@), resolved(app_name, to@)) {
            (Ok(from), Ok(to)) => Ok(ActionView::Mv { from, to }),
            (Err(error), _) => Err(error),
            (_, Err(error)) => Err(error),
        },
        BatchTask::Cp { from, to } => match (resolved(app_name, from@), resolved(app_name, to@)) {
            (Ok(from), Ok(to)) => Ok(ActionView::Cp { from, to }),
            (Err(error), _) => Err(error),
            (_, Err(error)) => Err(error),
        },
        BatchTask::Upload { local, remote, encrypt, force } => match resolved_upload(
            app_name,
            local@,
            remote@,
        ) {
            Ok(remote) => Ok(ActionView::Upload { local: local@, remote, encrypt, force }),
            Err(error) => Err(error),
        },
        BatchTask::Download { remote, local, decrypt, force } => match resolved(
            app_name,
            remote@,
        ) {
            Ok(remote) => Ok(ActionView::Download { remote, local: local@, decrypt, force }),
            Err(error) => Err(error),
        },
    }
}

/// What a task comes to on the platform.
pub fn plan_task(credentials: &AppCredentials, task: &BatchTask) -> (result: Result<Action, Error>)
    ensures
        outcome(result) == action_of(credentials@.app_name, *task),
        result matches Ok(action) ==> match (*task, action) {
            (BatchTask::Mkdir { path: asked }, Action::Mkdir { path }) => resolved(
                credentials@.app_name,
                asked@,
            ) == Ok::<Seq<char>, ErrorView>(path@),
            (BatchTask::Rm { path: asked }, Action::Rm { path }) => resolved(
                credentials@.app_name,
                asked@,
            ) == Ok::<Seq<char>, ErrorView>(path@),
            (BatchTask::Mv { from: source, to: target }, Action::Mv { from, to }) => resolved(
                credentials@.app_name,
                source@,
            ) == Ok::<Seq<char>, ErrorView>(from@) && resolved(credentials@.app_name, target@)
                == Ok::<Seq<char>, ErrorView>(to@),
            (BatchTask::Cp { from: source, to: target }, Action::Cp { from, to }) => resolved(
                credentials@.app_name,
                source@,
            ) == Ok::<Seq<char>, ErrorView>(from@) && resolved(credentials@.app_name, target@)
                == Ok::<Seq<char>, ErrorView>(to@),
            (
                BatchTask::Upload { local: file, remote: place, encrypt: seal, force: over },
                Action::Upload { local, remote, encrypt, force },
            ) => local@ == file@ && encrypt == seal && force == over && resolved_upload(
                credentials@.app_name,
                file@,
                place@,
            ) == Ok::<Seq<char>, ErrorView>(remote@),
            (
                BatchTask::Download { remote: place, local: file, decrypt: open, force: over },
                Action::Download { remote, local, decrypt, force },
            ) => local@ == file@ && decrypt == open && force == over && resolved(
                credentials@.app_name,
                place@,
            ) == Ok::<Seq<char>, ErrorView>(remote@),
            _ => false,
        },
{
    match task {
        BatchTask::Mkdir { path } => match resolve_remote_path(credentials, path.as_str()) {
            Ok(path) => Ok(Action::Mkdir { path }),
            Err(error) => Err(error),
        },
        BatchTask::Rm { path } => match resolve_remote_path(credentials, path.as_str()) {
            Ok(path) => Ok(Action::Rm { path }),
            Err(error) => Err(error),
        },
        BatchTask::Mv { from, to } => {
            let from = match resolve_remote_path(credentials, from.as_str()) {
                Ok(path) => path,
                Err(error) => return Err(error),
            };
            match resolve_remote_path(credentials, to.as_str()) {
                Ok(to) => Ok(Action::Mv { from, to }),
                Err(error) => Err(error),
            }
        },
        BatchTask::Cp { from, to } => {
            let from = match resolve_remote_path(credentials, from.as_str()) {
                Ok(path) => path,
                Err(error) => return Err(error),
            };
            match resolve_remote_path(credentials, to.as_str()) {
                Ok(to) => Ok(Action::Cp { from, to }),
                Err(error) => Err(error),
            }
        },
        BatchTask::Upload { local, remote, encrypt, force } => match resolve_upload_remote_path(
            credentials,
            local,
            remote.as_str(),
        ) {
            Ok(remote) => Ok(
                Action::Upload { local: local.clone(), remote, encrypt: *encrypt, force: *force },
            ),
            Err(error) => Err(error),
        },
        BatchTask::Download { remote, local, decrypt, force } => match resolve_remote_path(
            credentials,
            remote.as_str(),
        ) {
            Ok(remote) => Ok(
                Action::Download { remote, local: local.clone(), decrypt: *decrypt, force: *force },
            ),
            Err(error) => Err(error),
        },
    }
}

/// The line on an action that has been done. A transfer has lines of its own.
pub open spec fn done_text(action: ActionView) -> Option<Seq<char>> {
    match action {
        ActionView::Mkdir { path } => Some("created "@ + path),
        ActionView::Rm { path } => Some("removed "@ + path),
        ActionView::Mv { from, to } => Some("moved "@ + from + " -> "@ + to),
        ActionView::Cp { from, to } => Some("copied "@ + from + " -> "@ + to),
        _ => None,
    }
}

impl Action {
    /// The line on the action when it has been done.
    pub fn done_line(&self) -> (result: Option<String>)
        ensures
            crate::config::text_view(result) == done_text(self@),
    {
        match self {
            Action::Mkdir { path } => Some(concat("created ", path.as_str())),
            Action::Rm { path } => Some(concat("removed ", path.as_str())),
            Action::Mv { from, to } => {
                let mut text = concat("moved ", from.as_str());
                text.append(" -> ");
                text.append(to.as_str());
                Some(text)
            },
            Action::Cp { from, to } => {
                let mut text = concat("copied ", from.as_str());
                text.append(" -> ");
                text.append(to.as_str());
                Some(text)
            },
            _ => None,
        }
    }

    /// What the action gives to the report on a batch. A transfer gives its summary instead.
    pub fn output(&self) -> (result: Option<TaskOutput>)
        ensures
            match self@ {
                ActionView::Mkdir { path } => result matches Some(TaskOutput::Path { path: p }) && p@
                    == path,
                ActionView::Rm { path } => result matches Some(TaskOutput::Path { path: p }) && p@
                    == path,
                ActionView::Mv { from, to } => result matches Some(
                    TaskOutput::Relocation { from: f, to: t },
                ) && f@ == from && t@ == to,
                ActionView::Cp { from, to } => result matches Some(
                    TaskOutput::Relocation { from: f, to: t },
                ) && f@ == from && t@ == to,
                _ => result is None,
            },
    {
        match self {
            Action::Mkdir { path } => Some(TaskOutput::Path { path: path.clone() }),
            Action::Rm { path } => Some(TaskOutput::Path { path: path.clone() }),
            Action::Mv { from, to } => Some(
                TaskOutput::Relocation { from: from.clone(), to: to.clone() },
            ),
            Action::Cp { from, to } => Some(
                TaskOutput::Relocation { from: from.clone(), to: to.clone() },
            ),
            _ => None,
        }
    }
}

// What is shown.

/// The line on an entry of a directory.
pub fn entry_line(entry: &RemoteEntry) -> (result: String)
    ensures
        result@ == (if entry.isdir == 1 {
            "dir"@
        } else {
            "file"@
        }) + "\t"@ + numeral(entry.size as nat) + "\t"@ + entry.path@ + "\t"@
            + entry.server_filename@,
{
    let kind = if entry.isdir == 1 {
        "dir"
    } else {
        "file"
    };
    let mut text = concat(kind, "\t");
    text.append(decimal(entry.size).as_str());
    text.append("\t");
    text.append(entry.path.as_str());
    text.append("\t");
    text.append(entry.server_filename.as_str());
    text
}

/// The lines on a token.
pub fn token_lines(token: &StoredToken) -> (result: Vec<String>)
    ensures
        text_views(result@) == seq![
            "scope: "@ + (match token.scope {
                Some(scope) => scope@,
                None => "unknown"@,
            }),
            "expires_at: "@ + signed_numeral(token.expires_at as int),
        ],
{
    let scope = match &token.scope {
        Some(scope) => scope.as_str(),
        None => "unknown",
    };
    let mut lines: Vec<String> = Vec::new();
    lines.push(concat("scope: ", scope));
    lines.push(concat("expires_at: ", signed_decimal(token.expires_at).as_str()));
    assert(text_views(lines@) =~= seq![
        "scope: "@ + scope@,
        "expires_at: "@ + signed_numeral(token.expires_at as int),
    ]);
    lines
}

/// The lines that tell a user how to authorize the application.
pub fn login_lines(credentials: &AppCredentials, device_code: &DeviceCodeResponse) -> (result: Vec<
    String,
>)
    ensures
        text_views(result@) == seq![
            "App key: "@ + masked(credentials@.app_key),
            "Open this URL: "@ + device_code.verification_url@,
            "User code: "@ + device_code.user_code@,
            "QR URL: "@ + device_code.qrcode_url@,
            "Waiting for authorization, polling every "@ + numeral(
                poll_interval_of(device_code.interval) as nat,
            ) + " seconds..."@,
        ],
{
    let mut lines: Vec<String> = Vec::new();
    lines.push(concat("App key: ", credentials.masked_app_key().as_str()));
    lines.push(concat("Open this URL: ", device_code.verification_url.as_str()));
    lines.push(concat("User code: ", device_code.user_code.as_str()));
    lines.push(concat("QR URL: ", device_code.qrcode_url.as_str()));
    let mut waiting = concat(
        "Waiting for authorization, polling every ",
        decimal(poll_interval(device_code.interval)).as_str(),
    );
    waiting.append(" seconds...");
    lines.push(waiting);
    assert(text_views(lines@) =~= seq![
        "App key: "@ + masked(credentials@.app_key),
        "Open this URL: "@ + device_code.verification_url@,
        "User code: "@ + device_code.user_code@,
        "QR URL: "@ + device_code.qrcode_url@,
        "Waiting for authorization, polling every "@ + numeral(
            poll_interval_of(device_code.interval) as nat,
        ) + " seconds..."@,
    ]);
    lines
}

/// The lines on an upload.
pub open spec fn upload_texts(local: Seq<u8>, summary: UploadSummary) -> Seq<Seq<char>> {
    let lines = seq![
        "uploaded "@ + lossy_text(local) + " -> "@ + summary.path@,
        "size: "@ + numeral(summary.size as nat) + " bytes, parts: "@ + numeral(
            summary.parts as nat,
        ),
    ];
    if summary.encrypted {
        lines.push("remote payload is encrypted"@)
    } else {
        lines
    }
}

/// The lines on an upload.
pub fn upload_lines(local: &LocalPath, summary: &UploadSummary) -> (result: Vec<String>)
    ensures
        text_views(result@) == upload_texts(local@, *summary),
{
    let mut first = concat("uploaded ", local.display().as_str());
    first.append(" -> ");
    first.append(summary.path.as_str());
    let mut second = concat("size: ", decimal(summary.size).as_str());
    second.append(" bytes, parts: ");
    second.append(decimal(summary.parts as u64).as_str());
    let mut lines: Vec<String> = Vec::new();
    lines.push(first);
    lines.push(second);
    if summary.encrypted {
        lines.push("remote payload is encrypted".to_owned());
    }
    assert(text_views(lines@) =~= upload_texts(local@, *summary));
    lines
}

/// The lines on a download.
pub open spec fn download_texts(local: Seq<u8>, summary: DownloadSummary) -> Seq<Seq<char>> {
    let lines = seq![
        "downloaded "@ + summary.remote_path@ + " -> "@ + lossy_text(local),
        "size: "@ + numeral(summary.size as nat) + " bytes"@,
    ];
    if summary.decrypted {
        lines.push("local payload has been decrypted"@)
    } else {
        lines
    }
}

/// The lines on a download.
pub fn download_lines(local: &LocalPath, summary: &DownloadSummary) -> (result: Vec<String>)
    ensures
        text_views(result@) == download_texts(local@, *summary),
{
    let mut first = concat("downloaded ", summary.remote_path.as_str());
    first.append(" -> ");
    first.append(local.display().as_str());
    let mut second = concat("size: ", decimal(summary.size).as_str());
    second.append(" bytes");
    let mut lines: Vec<String> = Vec::new();
    lines.push(first);
    lines.push(second);
    if summary.decrypted {
        lines.push("local payload has been decrypted".to_owned());
    }
    assert(text_views(lines@) =~= download_texts(local@, *summary));
    lines
}

/// What a failed upload is reported as.
pub fn upload_failure(local: &LocalPath, remote: &str, error: &Error) -> (result: Error)
    ensures
        result@ == ErrorView::Api(
            "upload "@ + lossy_text(local@) + " -> "@ + remote@ + " failed: "@ + error_message(
                error@,
            ),
        ),
{
    let mut text = concat("upload ", local.display().as_str());
    text.append(" -> ");
    text.append(remote);
    text.append(" failed: ");
    text.append(error.to_string().as_str());
    Error::Api(text)
}

/// What a failed download is reported as.
pub fn download_failure(remote: &str, local: &LocalPath, error: &Error) -> (result: Error)
    ensures
        result@ == ErrorView::Api(
            "download "@ + remote@ + " -> "@ + lossy_text(local@) + " failed: "@ + error_message(
                error@,
            ),
        ),
{
    let mut text = concat("download ", remote);
    text.append(" -> ");
    text.append(local.display().as_str());
    text.append(" failed: ");
    text.append(error.to_string().as_str());
    Error::Api(text)
}

} // verus!
