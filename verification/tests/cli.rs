use baidupan_cli::api::{DownloadSummary, RemoteEntry, UploadSummary};
use baidupan_cli::auth::DeviceCodeResponse;
use baidupan_cli::batch::{
    describe_batch_task, task_line, BatchManifest, BatchRun, BatchTask, TaskOutput,
};
use baidupan_cli::cli::{
    download_failure, download_lines, entry_line, log_filter, login_lines, plan_task,
    progress_position, resolve_remote_path, resolve_upload_remote_path, token_lines, upload_failure,
    upload_lines, Action, BaidupanCli, Commands,
};
use baidupan_cli::config::{AppCredentials, ConfigValue, StoredToken};
use baidupan_cli::error::{Error, IoContext};
use baidupan_cli::path::LocalPath;
use baidupan_cli::text::{decimal, signed_decimal};
use serde_json::Value;

fn credentials() -> AppCredentials {
    AppCredentials {
        app_key: "key".to_string(),
        app_secret: "secret".to_string(),
        app_name: "demo-app".to_string(),
    }
}

fn local(text: &str) -> LocalPath {
    LocalPath::from_text(text)
}

fn mkdir(path: &str) -> BatchTask {
    BatchTask::Mkdir { path: path.to_string() }
}

fn made(path: &str) -> TaskOutput {
    TaskOutput::Path { path: path.to_string() }
}

fn read_task(value: &Value) -> BatchTask {
    let text = |name: &str| value[name].as_str().expect("text").to_string();
    let flag = |name: &str| value[name].as_bool().unwrap_or(false);
    match value["type"].as_str().expect("type") {
        "mkdir" => BatchTask::Mkdir { path: text("path") },
        "download" => BatchTask::Download {
            remote: text("remote"),
            local: local(&text("local")),
            decrypt: flag("decrypt"),
            force: flag("force"),
        },
        other => panic!("{other}"),
    }
}

fn read_manifest(json: &str) -> BatchManifest {
    match serde_json::from_str(json).expect("manifest") {
        Value::Array(list) => BatchManifest::Tasks(list.iter().map(read_task).collect()),
        value => BatchManifest::Wrapped {
            tasks: value["tasks"].as_array().expect("tasks").iter().map(read_task).collect(),
        },
    }
}

#[test]
fn resolves_root_to_app_root() {
    assert_eq!(resolve_remote_path(&credentials(), "/").expect("root"), "/apps/demo-app");
}

#[test]
fn resolves_relative_paths_inside_app_root() {
    assert_eq!(
        resolve_remote_path(&credentials(), "docs/file.txt").expect("relative"),
        "/apps/demo-app/docs/file.txt"
    );
    assert_eq!(
        resolve_remote_path(&credentials(), "/docs/file.txt").expect("leading slash"),
        "/apps/demo-app/docs/file.txt"
    );
}

#[test]
fn rejects_explicit_apps_prefix() {
    let error = resolve_remote_path(&credentials(), "/apps/demo-app/docs/file.txt")
        .expect_err("should reject full path");

    assert!(error.to_string().contains("do not include the /apps/<app_name> prefix"));
}

#[test]
fn rejects_the_app_root_in_other_words() {
    for path in ["/apps/other", "apps/demo-app", "//apps/demo-app", " apps/demo-app/x"] {
        assert_eq!(
            resolve_remote_path(&credentials(), path),
            Err(Error::InvalidRemotePath(format!(
                "{path} (do not include the /apps/<app_name> prefix; commands are scoped to \
                 /apps/demo-app)"
            )))
        );
    }
    assert_eq!(
        resolve_remote_path(&credentials(), "apps/demo-apple").expect("another name"),
        "/apps/demo-app/apps/demo-apple"
    );
    assert_eq!(
        resolve_remote_path(&credentials(), " \t"),
        Err(Error::InvalidRemotePath(" \t".to_string()))
    );
}

#[test]
fn resolves_upload_root_to_local_file_name() {
    assert_eq!(
        resolve_upload_remote_path(&credentials(), &local("files/test.txt"), "/")
            .expect("upload root"),
        "/apps/demo-app/test.txt"
    );
}

#[test]
fn resolves_upload_directory_to_local_file_name() {
    assert_eq!(
        resolve_upload_remote_path(&credentials(), &local("files/test.txt"), "docs/")
            .expect("upload directory"),
        "/apps/demo-app/docs/test.txt"
    );
}

#[test]
fn resolves_explicit_upload_file_path() {
    assert_eq!(
        resolve_upload_remote_path(&credentials(), &local("files/test.txt"), "docs/renamed.txt")
            .expect("explicit file path"),
        "/apps/demo-app/docs/renamed.txt"
    );
}

#[test]
fn upload_to_a_directory_needs_a_file_name() {
    assert_eq!(
        resolve_upload_remote_path(&credentials(), &local("files/.."), "docs/"),
        Err(Error::InvalidRemotePath("files/..".to_string()))
    );
    assert_eq!(
        resolve_upload_remote_path(&credentials(), &local("a"), " docs/// ").expect("slashes"),
        "/apps/demo-app/docs/a"
    );
    assert!(resolve_upload_remote_path(&credentials(), &local("a"), "/apps/x/").is_err());
}

#[test]
fn plans_tasks() {
    assert_eq!(
        plan_task(&credentials(), &mkdir("docs")),
        Ok(Action::Mkdir { path: "/apps/demo-app/docs".to_string() })
    );
    let task = BatchTask::Mv { from: "a".to_string(), to: "b".to_string() };
    let action = plan_task(&credentials(), &task).expect("move");
    assert_eq!(
        action.done_line().as_deref(),
        Some("moved /apps/demo-app/a -> /apps/demo-app/b")
    );
    assert_eq!(
        action.output(),
        Some(TaskOutput::Relocation {
            from: "/apps/demo-app/a".to_string(),
            to: "/apps/demo-app/b".to_string(),
        })
    );
    let task = BatchTask::Mv { from: "".to_string(), to: " ".to_string() };
    assert_eq!(
        plan_task(&credentials(), &task),
        Err(Error::InvalidRemotePath(String::new()))
    );
    let task = BatchTask::Upload {
        local: local("files/a.txt"),
        remote: "docs/".to_string(),
        encrypt: true,
        force: false,
    };
    let action = plan_task(&credentials(), &task).expect("upload");
    assert_eq!(
        action,
        Action::Upload {
            local: local("files/a.txt"),
            remote: "/apps/demo-app/docs/a.txt".to_string(),
            encrypt: true,
            force: false,
        }
    );
    assert_eq!((action.done_line(), action.output()), (None, None));
    let task = BatchTask::Download {
        remote: "a".to_string(),
        local: local("out"),
        decrypt: true,
        force: true,
    };
    assert_eq!(
        plan_task(&credentials(), &task),
        Ok(Action::Download {
            remote: "/apps/demo-app/a".to_string(),
            local: local("out"),
            decrypt: true,
            force: true,
        })
    );
    let rm = Action::Rm { path: "/x".to_string() };
    assert_eq!(rm.done_line().as_deref(), Some("removed /x"));
    assert_eq!(rm.output(), Some(made("/x")));
    let cp = Action::Cp { from: "/x".to_string(), to: "/y".to_string() };
    assert_eq!(cp.done_line().as_deref(), Some("copied /x -> /y"));
}

#[test]
fn commands_stand_for_tasks() {
    let cli = BaidupanCli {
        json: false,
        verbose: 2,
        command: Commands::Mkdir { path: "docs".to_string() },
    };
    assert_eq!(cli.command.into_task(), Some(mkdir("docs")));
    assert_eq!(Commands::Whoami.into_task(), None);
    assert_eq!(Commands::Ls { path: "/".to_string() }.into_task(), None);
}

#[test]
fn describes_tasks() {
    assert_eq!(describe_batch_task(&mkdir("demo")), "mkdir demo");
    assert_eq!(describe_batch_task(&BatchTask::Rm { path: "x".to_string() }), "rm x");
    assert_eq!(
        describe_batch_task(&BatchTask::Cp { from: "a".to_string(), to: "b".to_string() }),
        "cp a -> b"
    );
    assert_eq!(
        describe_batch_task(&BatchTask::Download {
            remote: "r".to_string(),
            local: local("l"),
            decrypt: false,
            force: false,
        }),
        "download r -> l"
    );
    assert_eq!(task_line(0, 3, &mkdir("demo"), None), "[1/3] ok: mkdir demo");
    assert_eq!(
        task_line(2, 3, &mkdir("demo"), Some(&Error::NotLoggedIn)),
        "[3/3] failed: mkdir demo: token file does not exist; run `baidupan login` first"
    );
}

#[test]
fn batch_stops_at_the_first_failure() {
    let mut run = BatchRun::new(3, false);
    assert_eq!(run.next(), Some(0));
    run.record(mkdir("a"), Ok(made("/a")));
    assert_eq!(run.next(), Some(1));
    run.record(mkdir("b"), Err(Error::NotLoggedIn));
    assert_eq!(run.next(), None);
    let report = run.report();
    assert_eq!((report.total, report.succeeded, report.failed), (3, 1, 1));
    assert_eq!(report.results[0].output, Some(made("/a")));
    assert_eq!(
        report.results[1].error.as_deref(),
        Some("token file does not exist; run `baidupan login` first")
    );
    assert!(!report.results[1].ok);
    assert_eq!(report.line(), "batch complete: 1 succeeded, 1 failed, 3 total");
    assert_eq!(
        report.verdict(),
        Err(Error::Api("batch completed with 1 failure(s)".to_string()))
    );
}

#[test]
fn batch_goes_on_after_failures_if_asked() {
    let mut run = BatchRun::new(2, true);
    run.record(mkdir("a"), Err(Error::NotLoggedIn));
    assert_eq!(run.next(), Some(1));
    run.record(mkdir("b"), Ok(made("/b")));
    assert_eq!(run.next(), None);
    let report = run.report();
    assert_eq!((report.succeeded, report.failed), (1, 1));
    assert_eq!(BatchRun::new(0, true).next(), None);
    assert_eq!(BatchRun::new(0, true).report().verdict(), Ok(()));
}

#[test]
fn batch_requires_login() {
    let missing = ConfigValue { runtime: None, builtin: None };
    let error = AppCredentials::from_env(missing.clone(), missing.clone(), missing)
        .expect_err("missing app key");
    let mut run = BatchRun::new(1, false);
    run.record(mkdir("demo"), Err(error));
    let report = run.report();
    assert!(report.results[0]
        .error
        .as_deref()
        .expect("error")
        .contains("missing environment variable BAIDUPAN_APP_KEY"));
    assert_eq!(
        report.verdict(),
        Err(Error::Api("batch completed with 1 failure(s)".to_string()))
    );
}

#[test]
fn loads_plain_task_array_manifest() {
    let manifest = read_manifest(r#"[{"type":"mkdir","path":"/apps/demo"}]"#);
    assert_eq!(manifest, BatchManifest::Tasks(vec![mkdir("/apps/demo")]));
    assert_eq!(manifest.into_tasks(), vec![mkdir("/apps/demo")]);
}

#[test]
fn loads_wrapped_manifest() {
    let task = BatchTask::Download {
        remote: "/apps/a.txt".to_string(),
        local: local("out.txt"),
        decrypt: false,
        force: true,
    };
    let manifest = read_manifest(
        r#"{"tasks":[{"type":"download","remote":"/apps/a.txt","local":"out.txt","force":true}]}"#,
    );
    assert_eq!(manifest, BatchManifest::Wrapped { tasks: vec![task.clone()] });
    assert_eq!(manifest.into_tasks(), vec![task]);
}

#[test]
fn shows_entries_and_tokens() {
    let mut entry = RemoteEntry {
        fs_id: 1,
        path: "/apps/demo-app/a".to_string(),
        server_filename: "a".to_string(),
        isdir: 1,
        size: 0,
        server_mtime: 0,
        md5: None,
    };
    assert_eq!(entry_line(&entry), "dir\t0\t/apps/demo-app/a\ta");
    entry.isdir = 2;
    entry.size = 17;
    assert_eq!(entry_line(&entry), "file\t17\t/apps/demo-app/a\ta");
    let mut token = StoredToken {
        access_token: "a".to_string(),
        refresh_token: "r".to_string(),
        expires_at: -5,
        scope: None,
    };
    assert_eq!(token_lines(&token), vec!["scope: unknown", "expires_at: -5"]);
    token.scope = Some("basic".to_string());
    assert_eq!(token_lines(&token)[0], "scope: basic");
}

#[test]
fn shows_how_to_log_in() {
    let code = DeviceCodeResponse {
        device_code: "d".to_string(),
        user_code: "u".to_string(),
        verification_url: "https://v".to_string(),
        qrcode_url: "https://q".to_string(),
        expires_in: 300,
        interval: 1,
    };
    assert_eq!(
        login_lines(&credentials(), &code),
        vec![
            "App key: ****",
            "Open this URL: https://v",
            "User code: u",
            "QR URL: https://q",
            "Waiting for authorization, polling every 5 seconds...",
        ]
    );
}

#[test]
fn shows_transfers() {
    let upload = UploadSummary {
        path: "/apps/demo-app/a".to_string(),
        fs_id: None,
        size: 7,
        md5: None,
        encrypted: true,
        parts: 1,
    };
    assert_eq!(
        upload_lines(&local("a"), &upload),
        vec![
            "uploaded a -> /apps/demo-app/a",
            "size: 7 bytes, parts: 1",
            "remote payload is encrypted",
        ]
    );
    let download = DownloadSummary {
        remote_path: "/apps/demo-app/a".to_string(),
        local_path: local("a"),
        size: 7,
        decrypted: false,
    };
    assert_eq!(
        download_lines(&local("a"), &download),
        vec!["downloaded /apps/demo-app/a -> a", "size: 7 bytes"]
    );
    assert_eq!(
        upload_failure(&local("a"), "/r", &Error::Api("x".to_string())),
        Error::Api("upload a -> /r failed: API error: x".to_string())
    );
    assert_eq!(
        download_failure("/r", &local("a"), &Error::Api("x".to_string())),
        Error::Api("download /r -> a failed: API error: x".to_string())
    );
    assert_eq!((progress_position(3, 2), progress_position(1, 2)), (2, 1));
    assert_eq!((log_filter(0), log_filter(1), log_filter(9)), ("warn", "info", "debug"));
}

#[test]
fn shows_errors() {
    let failed: Result<(), String> = Err("no such file".to_string());
    let error = failed.at(local("/tmp/a")).expect_err("failed");
    assert_eq!(error.to_string(), "I/O error at /tmp/a: no such file");
    let done: Result<u8, String> = Ok(3);
    assert_eq!(done.at(local("/tmp/a")), Ok(3));
    let odd = Error::Io { path: LocalPath { bytes: vec![0x61, 0xff] }, source: "x".to_string() };
    assert_eq!(odd.to_string(), "I/O error at a\u{fffd}: x");
    assert_eq!(
        Error::ConfigDirUnavailable.to_string(),
        "configuration directory is unavailable on this system"
    );
    assert_eq!(Error::Http("x".to_string()).to_string(), "HTTP request failed: x");
    assert_eq!(Error::Json("x".to_string()).to_string(), "failed to parse JSON: x");
    assert_eq!(Error::Time("x".to_string()).to_string(), "system clock error: x");
    assert_eq!(Error::Crypto("x".to_string()).to_string(), "cryptography error: x");
    assert_eq!(
        Error::InvalidConfig("x".to_string()).to_string(),
        "invalid configuration: x"
    );
    assert_eq!(
        Error::InvalidRemotePath("x".to_string()).to_string(),
        "invalid remote path: x"
    );
}

#[test]
fn writes_numerals() {
    assert_eq!(decimal(0), "0");
    assert_eq!(decimal(u64::MAX), "18446744073709551615");
    assert_eq!(signed_decimal(i64::MIN), "-9223372036854775808");
    assert_eq!(signed_decimal(7), "7");
}
