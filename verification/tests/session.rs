use baidupan_cli::api::{
    CreateResponse, DownloadPlan, FileMetaEntry, LocateUploadResponse, LocateUploadServer,
    OnDuplicate, PanClient, PrecreateResponse, RemoteEntry, UploadRequest,
};
use baidupan_cli::config::{AppCredentials, TokenStore};
use baidupan_cli::error::Error;
use baidupan_cli::path::LocalPath;
use baidupan_cli::session::{DownloadRun, UploadAction, UploadEvent, UploadRun, UploadStage};
use baidupan_cli::transfer::{UploadStateStore, UPLOAD_PART_SIZE};

fn client() -> PanClient {
    PanClient::new(
        AppCredentials {
            app_key: "key".to_string(),
            app_secret: "secret".to_string(),
            app_name: "demo-app".to_string(),
        },
        TokenStore::new(LocalPath::from_text("/tmp/tokens.json")),
    )
    .expect("client")
}

fn run(size: u64, blocks: usize) -> UploadRun {
    let (plan, _) = client()
        .upload_file(
            &UploadRequest {
                local_path: &LocalPath::from_text("/tmp/a"),
                remote_path: "/apps/demo-app/a",
                size,
                block_list: &vec!["digest".to_string(); blocks],
                encrypted: false,
                resume_uploadid: None,
                ondup: OnDuplicate::Fail,
            },
            "token",
        )
        .expect("plan");
    UploadRun::new(plan)
}

fn announced(block_list: Vec<usize>) -> UploadEvent {
    UploadEvent::Announced(PrecreateResponse { uploadid: Some("id".to_string()), block_list })
}

fn located(server: &str) -> UploadEvent {
    UploadEvent::Located(LocateUploadResponse {
        error_code: 0,
        error_msg: String::new(),
        servers: vec![LocateUploadServer { server: server.to_string() }],
        bak_servers: Vec::new(),
    })
}

fn created() -> UploadEvent {
    UploadEvent::Created(CreateResponse { path: None, fs_id: Some(9), size: None, md5: None })
}

fn sent_index(action: &UploadAction) -> Option<usize> {
    match action {
        UploadAction::Send { part, file_name, request } => {
            assert_eq!(file_name, &format!("part-{}", part.index));
            assert_eq!(request.query[4].1, part.index.to_string());
            Some(part.index)
        }
        _ => None,
    }
}

#[test]
fn upload_sends_every_block_before_the_file_is_made() {
    let size = UPLOAD_PART_SIZE as u64 + 5;
    let mut upload = run(size, 2);
    match upload.step(announced(Vec::new())).expect("locate") {
        UploadAction::Locate { uploadid, request } => {
            assert_eq!(uploadid, "id");
            assert_eq!(request.query[4].1, "id");
        }
        other => panic!("{other:?}"),
    }
    let action = upload.step(located("https://c")).expect("send");
    assert_eq!(sent_index(&action), Some(0));
    assert_eq!(upload.progress, 0);
    let action = upload.step(UploadEvent::Sent).expect("send");
    assert_eq!(sent_index(&action), Some(1));
    assert_eq!(upload.progress, UPLOAD_PART_SIZE as u64);
    let action = upload.step(UploadEvent::Sent).expect("create");
    assert!(matches!(action, UploadAction::Create(_)));
    assert_eq!(upload.progress, size);
    match upload.step(created()).expect("finish") {
        UploadAction::Finish(summary) => {
            assert_eq!((summary.fs_id, summary.size, summary.parts), (Some(9), size, 2));
        }
        other => panic!("{other:?}"),
    }
    assert_eq!(upload.stage, UploadStage::Finished);
}

#[test]
fn upload_sends_the_missing_blocks_only() {
    let size = 2 * UPLOAD_PART_SIZE as u64;
    let mut upload = run(size, 2);
    upload.step(announced(vec![1])).expect("locate");
    let action = upload.step(located("https://c")).expect("send");
    assert_eq!(sent_index(&action), Some(1));
    assert_eq!(upload.progress, UPLOAD_PART_SIZE as u64);
    assert!(matches!(upload.step(UploadEvent::Sent), Ok(UploadAction::Create(_))));
}

#[test]
fn upload_stays_where_it_is_after_an_error() {
    let mut upload = run(5, 1);
    assert_eq!(
        upload.step(UploadEvent::Announced(PrecreateResponse {
            uploadid: None,
            block_list: Vec::new(),
        })),
        Err(Error::Api("precreate response missing uploadid".to_string()))
    );
    assert_eq!(upload.stage, UploadStage::Announcing);
    assert_eq!(
        upload.step(UploadEvent::Sent),
        Err(Error::Api("unexpected answer".to_string()))
    );
    upload.step(announced(vec![0, 3])).expect("locate");
    let before = upload.clone();
    assert_eq!(
        upload.step(located("http://c")),
        Err(Error::Api("locateupload returned no https upload host".to_string()))
    );
    assert_eq!(
        upload.step(located("https://c")),
        Err(Error::Api(
            "precreate returned unexpected part index 3, total parts=1".to_string()
        ))
    );
    assert_eq!(upload, before);
}

#[test]
fn upload_without_blocks_makes_the_file_at_once() {
    let mut upload = run(0, 0);
    upload.step(announced(Vec::new())).expect("locate");
    assert!(matches!(upload.step(located("https://c")), Ok(UploadAction::Create(_))));
}

#[test]
fn download_finds_its_content() {
    let download = DownloadRun::new("docs/a.txt", 3).expect("run");
    let request = download.list_request(&client(), "token").expect("list");
    assert_eq!(request.query[1], ("dir".to_string(), "/docs".to_string()));
    let entry = RemoteEntry {
        fs_id: 7,
        path: "/docs/a.txt".to_string(),
        server_filename: "a.txt".to_string(),
        isdir: 0,
        size: 10,
        server_mtime: 0,
        md5: None,
    };
    assert_eq!(download.lookup.find(vec![entry.clone()]).expect("entry").fs_id, 7);
    let request = download.metadata_request(vec![entry], "token").expect("filemetas");
    assert_eq!(
        request.query,
        vec![
            ("method".to_string(), "filemetas".to_string()),
            ("access_token".to_string(), "token".to_string()),
            ("fsids".to_string(), "[7]".to_string()),
            ("dlink".to_string(), "1".to_string()),
        ]
    );
    assert_eq!(
        download.metadata_request(Vec::new(), "token"),
        Err(Error::Api("remote path not found: /docs/a.txt".to_string()))
    );
    let info = FileMetaEntry {
        path: "/docs/a.txt".to_string(),
        isdir: 0,
        size: 10,
        dlink: Some("https://d".to_string()),
    };
    let (metadata, plan) =
        download.plan(&client(), vec![info.clone()], "token").expect("plan");
    assert_eq!(metadata, info);
    match plan {
        DownloadPlan::Fetch(request) => assert_eq!(request.range.as_deref(), Some("bytes=3-")),
        DownloadPlan::Complete => panic!("not all is here"),
    }
    assert_eq!(
        download.plan(&client(), Vec::new(), "token"),
        Err(Error::Api("no metadata returned for /docs/a.txt".to_string()))
    );
}

#[test]
fn download_needs_a_path_with_a_name() {
    assert_eq!(DownloadRun::new("/", 0), Err(Error::InvalidRemotePath("/".to_string())));
    assert_eq!(DownloadRun::new(" ", 0), Err(Error::InvalidRemotePath(" ".to_string())));
}

#[test]
fn encrypted_sessions_have_a_cache() {
    let store = UploadStateStore::new(LocalPath::from_text("/tmp/uploads"));
    assert_eq!(store.session_cache("k", false), None);
    assert_eq!(store.session_cache("k", true), Some(store.cache_path("k")));
}
