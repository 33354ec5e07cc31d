use baidupan_cli::api::{
    api_payload_error, check_pan_payload, download_payload_error, download_start, download_summary,
    ensure_pan_ok, first_metadata, get_file_metadata, int_like, is_success,
    locateupload_payload_error, move_like_payload, normalize_remote_path, parent_remote_dir,
    part_file_name, pick_https_upload_host, resolve_entry_by_path, upload_host, upload_part_len,
    upload_parts, AccessPlan, CreateResponse, DownloadPlan, FileMetaEntry, IntLike,
    LocateUploadResponse, LocateUploadServer, OnDuplicate, PanClient, PrecreateResponse, RemoteEntry, UploadPart,
    UploadPlan, UploadRequest,
};
use baidupan_cli::config::{AppCredentials, StoredToken, TokenStore};
use baidupan_cli::error::Error;
use baidupan_cli::hints::openapi_errno_hint;
use baidupan_cli::http::{HttpRequest, Method};
use baidupan_cli::json::{JsonDocument, JsonScalar};
use baidupan_cli::path::LocalPath;
use baidupan_cli::transfer::UPLOAD_PART_SIZE;
use serde_json::Value;

fn client() -> PanClient {
    PanClient::new(
        AppCredentials {
            app_key: "key".to_string(),
            app_secret: "secret".to_string(),
            app_name: "demo-app".to_string(),
        },
        TokenStore::new(LocalPath::from_text("/tmp/tokens.json")),
    )
    .expect("client")
}

fn document(text: &str) -> JsonDocument {
    JsonDocument::parse(text.as_bytes()).expect("json")
}

fn pairs(list: &[(&str, &str)]) -> Vec<(String, String)> {
    list.iter().map(|(name, value)| (name.to_string(), value.to_string())).collect()
}

fn server(name: &str) -> LocateUploadServer {
    LocateUploadServer { server: name.to_string() }
}

fn metadata(isdir: i32, size: u64, dlink: Option<&str>) -> FileMetaEntry {
    FileMetaEntry {
        path: "/apps/demo/a.txt".to_string(),
        isdir,
        size,
        dlink: dlink.map(str::to_string),
    }
}

fn entry(fs_id: u64, path: &str, name: &str) -> RemoteEntry {
    RemoteEntry {
        fs_id,
        path: path.to_string(),
        server_filename: name.to_string(),
        isdir: 0,
        size: 1,
        server_mtime: 0,
        md5: None,
    }
}

fn upload_plan(size: u64, blocks: &[String], resume: Option<&str>) -> (UploadPlan, HttpRequest) {
    client()
        .upload_file(
            &UploadRequest {
                local_path: &LocalPath::from_text("/tmp/a.txt"),
                remote_path: "apps/demo/a.txt",
                size,
                block_list: blocks,
                encrypted: true,
                resume_uploadid: resume,
                ondup: OnDuplicate::Fail,
            },
            "token",
        )
        .expect("upload")
}

#[test]
fn normalizes_remote_paths() {
    assert_eq!(normalize_remote_path("docs/file.txt").expect("normalize"), "/docs/file.txt");
    assert_eq!(normalize_remote_path("/").expect("root"), "/");
}

#[test]
fn normalizing_again_changes_nothing() {
    let once = normalize_remote_path("  docs/a b.txt \n").expect("normalize");
    assert_eq!(once, "/docs/a b.txt");
    assert_eq!(normalize_remote_path(&once).expect("normalize"), once);
}

#[test]
fn refuses_blank_paths_and_empty_components() {
    for path in ["", "   ", "a//b", "//", "/a//"] {
        assert_eq!(
            normalize_remote_path(path),
            Err(Error::InvalidRemotePath(path.to_string()))
        );
    }
}

#[test]
fn builds_move_payload() {
    let payload = move_like_payload("/from/a.txt", "/to/b.txt").expect("payload");
    let parsed: Value = serde_json::from_str(&payload).expect("json");

    assert_eq!(parsed[0]["path"], "/from/a.txt");
    assert_eq!(parsed[0]["dest"], "/to");
    assert_eq!(parsed[0]["newname"], "b.txt");
    assert_eq!(payload, r#"[{"dest":"/to","newname":"b.txt","path":"/from/a.txt"}]"#);
}

#[test]
fn move_payload_needs_a_new_name() {
    assert_eq!(
        move_like_payload("/a", "/"),
        Err(Error::InvalidRemotePath("/".to_string()))
    );
    assert_eq!(
        move_like_payload("", "/b"),
        Err(Error::InvalidRemotePath(String::new()))
    );
    assert_eq!(
        move_like_payload("/a", " "),
        Err(Error::InvalidRemotePath(" ".to_string()))
    );
}

#[test]
fn derives_parent_remote_dir() {
    assert_eq!(parent_remote_dir("/docs/file.txt"), "/docs");
    assert_eq!(parent_remote_dir("/file.txt"), "/");
}

#[test]
fn root_is_its_own_parent() {
    assert_eq!(parent_remote_dir("/"), "/");
    assert_eq!(parent_remote_dir("/a/b/c/"), "/a/b");
    assert_eq!(parent_remote_dir("a"), "/");
}

#[test]
fn maps_known_openapi_errno_to_hint() {
    let error = api_payload_error("list", &document(r#"{"errno": 31045}"#));

    assert!(error.to_string().contains("access_token 验证未通过"));
    assert!(error.to_string().contains("errno=31045"));
}

#[test]
fn keeps_unknown_errno_without_hint() {
    let error = api_payload_error("list", &document(r#"{"errno": 99999, "errmsg": "mystery"}"#));

    assert!(error.to_string().contains("errno=99999"));
    assert!(error.to_string().contains("message=mystery"));
    assert!(!error.to_string().contains("hint="));
    assert_eq!(
        error,
        Error::Api(
            r#"list failed with errno=99999, message=mystery: {"errmsg":"mystery","errno":99999}"#
                .to_string()
        )
    );
}

#[test]
fn maps_upload_chunk_missing_errno_to_hint() {
    let error = api_payload_error("request", &document(r#"{"errno": 31363}"#));

    assert!(error.to_string().contains("分片缺失"));
    assert!(error.to_string().contains("partseq"));
}

#[test]
fn maps_uploadid_errno_to_hint() {
    let error = api_payload_error("create", &document(r#"{"errno": 31355}"#));

    assert!(error.to_string().contains("uploadid 参数异常"));
    assert!(error.to_string().contains("同一个 uploadid"));
}

#[test]
fn maps_locateupload_error_code_to_hint() {
    let error = locateupload_payload_error(&LocateUploadResponse {
        error_code: 4,
        error_msg: "qps limited".to_string(),
        servers: Vec::new(),
        bak_servers: Vec::new(),
    });

    assert!(error.to_string().contains("error_code=4"));
    assert!(error.to_string().contains("QPS 达到上限"));
    assert!(error.to_string().contains("message=qps limited"));
}

#[test]
fn maps_async_task_conflict_errno_to_hint() {
    let error = api_payload_error("filemanager", &document(r#"{"errno": 111}"#));

    assert!(error.to_string().contains("异步任务"));
    assert!(!error.to_string().contains("token 已过期"));
}

#[test]
fn maps_download_signature_errno_to_hint() {
    let error = download_payload_error(
        &reqwest::StatusCode::FORBIDDEN.to_string(),
        r#"{"error_code":31362,"error_msg":"bad sign"}"#,
    );

    assert!(error.to_string().contains("签名错误"));
    assert!(error.to_string().contains("status=403"));
}

#[test]
fn maps_download_antileech_errno_to_hint() {
    let error = download_payload_error(
        &reqwest::StatusCode::FORBIDDEN.to_string(),
        r#"{"error_code":31326}"#,
    );

    assert!(error.to_string().contains("User-Agent: pan.baidu.com"));
}

#[test]
fn download_error_without_code_shows_the_body() {
    assert_eq!(
        download_payload_error("404 Not Found", "  gone \n"),
        Error::Api("download failed with status=404 Not Found: gone".to_string())
    );
    assert_eq!(
        download_payload_error("404 Not Found", r#"{"errno":"x","error_code":5}"#),
        Error::Api(
            r#"download failed with status=404 Not Found: {"errno":"x","error_code":5}"#.to_string()
        )
    );
    assert_eq!(
        download_payload_error("500", r#"{"errno":5}"#),
        Error::Api(format!(
            "download failed with status=500 errno=5, hint={}: {}",
            openapi_errno_hint(5).expect("hint"),
            r#"{"errno":5}"#
        ))
    );
}

#[test]
fn hints_cover_negative_and_shared_numbers() {
    assert!(openapi_errno_hint(-6).expect("hint").contains("身份验证失败"));
    assert_eq!(openapi_errno_hint(4), openapi_errno_hint(18));
    assert_eq!(openapi_errno_hint(0), None);
    assert_eq!(openapi_errno_hint(-2), None);
}

#[test]
fn answers_without_errno_report_success() {
    assert_eq!(ensure_pan_ok("mkdir", br#"{"errno":0}"#), Ok(()));
    assert_eq!(ensure_pan_ok("mkdir", br#"{"errno":"7"}"#), Ok(()));
    assert_eq!(ensure_pan_ok("mkdir", b"[1]"), Ok(()));
    assert_eq!(
        ensure_pan_ok("mkdir", br#"{"errno":12,"error_msg":"no"}"#),
        Err(Error::Api(
            r#"mkdir failed with errno=12, message=no: {"errno":12,"error_msg":"no"}"#.to_string()
        ))
    );
    assert_eq!(
        ensure_pan_ok("mkdir", b"<html>"),
        Err(Error::Http("error decoding response body".to_string()))
    );
}

#[test]
fn checks_payloads_that_are_read_already() {
    let payload = JsonDocument {
        members: vec![
            ("errmsg".to_string(), JsonScalar::Null),
            ("error_msg".to_string(), JsonScalar::Text("unused".to_string())),
            ("errno".to_string(), JsonScalar::Number(Some(-20))),
        ],
        text: "{}".to_string(),
    };
    assert_eq!(
        check_pan_payload("list", &payload),
        Err(Error::Api("list failed with errno=-20: {}".to_string()))
    );
}

#[test]
fn reads_the_members_of_documents() {
    let read = document(r#" {"b": [1], "a": 1.5, "c": {}, "d": true, "e": 9223372036854775808, "f": -7} "#);
    assert_eq!(
        read.members,
        vec![
            ("a".to_string(), JsonScalar::Number(None)),
            ("b".to_string(), JsonScalar::Array),
            ("c".to_string(), JsonScalar::Object),
            ("d".to_string(), JsonScalar::Bool(true)),
            ("e".to_string(), JsonScalar::Number(None)),
            ("f".to_string(), JsonScalar::Number(Some(-7))),
        ]
    );
    assert_eq!(read.text, r#"{"a":1.5,"b":[1],"c":{},"d":true,"e":9223372036854775808,"f":-7}"#);
    assert_eq!(read.get_int("f"), Some(-7));
    assert_eq!(read.get_int("e"), None);
    assert_eq!(read.get_text("f"), None);
    assert!(document("[1, 2]").members.is_empty());
    assert_eq!(JsonDocument::parse(b"{"), None);
}

#[test]
fn parses_filemetas_info_payload() {
    let payload: Value = serde_json::from_str(
        r#"{"errno":0,"info":[{"path":"/apps/demo/a.txt","isdir":"0","size":17,"dlink":"https://example.com/file"}]}"#,
    )
    .expect("parse filemetas");
    let info: Vec<FileMetaEntry> = payload["info"]
        .as_array()
        .expect("info")
        .iter()
        .map(|item| FileMetaEntry {
            path: item["path"].as_str().expect("path").to_string(),
            isdir: int_like(IntLike::Text(item["isdir"].as_str().expect("isdir").to_string()))
                .expect("number"),
            size: item["size"].as_u64().expect("size"),
            dlink: item["dlink"].as_str().map(str::to_string),
        })
        .collect();

    assert_eq!(info.len(), 1);
    assert_eq!(info[0].path, "/apps/demo/a.txt");
    assert_eq!(info[0].dlink.as_deref(), Some("https://example.com/file"));
    let first = first_metadata(info, "/apps/demo/a.txt").expect("metadata");
    assert_eq!((first.isdir, first.size), (0, 17));
}

#[test]
fn reads_numbers_given_as_text() {
    assert_eq!(int_like(IntLike::Int(-3)), Ok(-3));
    assert_eq!(int_like(IntLike::Text("+12".to_string())), Ok(12));
    assert_eq!(int_like(IntLike::Text("-2147483648".to_string())), Ok(i32::MIN));
    for text in ["", "+", "1 ", "0x1", "2147483648", "one"] {
        assert!(int_like(IntLike::Text(text.to_string())).is_err());
    }
}

#[test]
fn prefers_https_upload_host_from_locateupload() {
    let payload = LocateUploadResponse {
        error_code: 0,
        error_msg: String::new(),
        servers: vec![server("http://c3.pcs.baidu.com"), server("https://c3.pcs.baidu.com")],
        bak_servers: vec![server("https://c.pcs.baidu.com")],
    };

    assert_eq!(
        pick_https_upload_host(&payload).as_deref(),
        Some("https://c3.pcs.baidu.com")
    );
}

#[test]
fn falls_back_to_backup_https_upload_host() {
    let payload = LocateUploadResponse {
        error_code: 0,
        error_msg: String::new(),
        servers: vec![server("http://c2.pcs.baidu.com")],
        bak_servers: vec![server("https://c.pcs.baidu.com")],
    };

    assert_eq!(
        pick_https_upload_host(&payload).as_deref(),
        Some("https://c.pcs.baidu.com")
    );
}

#[test]
fn upload_host_is_trimmed_or_refused() {
    let mut payload = LocateUploadResponse {
        error_code: 0,
        error_msg: String::new(),
        servers: vec![server(" https://c.pcs.baidu.com\t")],
        bak_servers: Vec::new(),
    };
    assert_eq!(upload_host(&payload), Ok("https://c.pcs.baidu.com".to_string()));

    payload.servers = vec![server("HTTPS://c.pcs.baidu.com")];
    assert_eq!(
        upload_host(&payload),
        Err(Error::Api("locateupload returned no https upload host".to_string()))
    );

    payload.error_code = -77;
    assert_eq!(
        upload_host(&payload),
        Err(Error::Api("locateupload failed with error_code=-77".to_string()))
    );
}

#[test]
fn computes_upload_part_lengths() {
    assert_eq!(upload_part_len(10, 1, 0).expect("part 0"), 10);
    assert_eq!(upload_part_len((UPLOAD_PART_SIZE as u64) + 2, 2, 1).expect("part 1"), 2);
}

#[test]
fn refuses_parts_outside_the_file() {
    assert_eq!(
        upload_part_len(10, 1, 1),
        Err(Error::Api(
            "precreate returned unexpected part index 1, total parts=1".to_string()
        ))
    );
    assert_eq!(
        upload_part_len(10, 3, 2),
        Err(Error::Api("computed upload offset 8388608 exceeds file size 10".to_string()))
    );
    assert_eq!(upload_part_len(0, 1, 0), Ok(0));
}

#[test]
fn parts_tile_the_file() {
    let size = 2 * UPLOAD_PART_SIZE as u64 + 5;
    let parts = upload_parts(size, 3, &[0, 1, 2]).expect("parts");
    assert_eq!(parts.completed, 0);
    assert_eq!(
        parts.parts[1],
        UploadPart {
            index: 1,
            start: UPLOAD_PART_SIZE as u64,
            len: UPLOAD_PART_SIZE,
            progress: 2 * UPLOAD_PART_SIZE as u64,
        }
    );
    assert_eq!(parts.parts[2].len, 5);
    assert_eq!(parts.parts[2].progress, size);
}

#[test]
fn resumed_upload_starts_from_what_is_there() {
    let size = 2 * UPLOAD_PART_SIZE as u64 + 5;
    let parts = upload_parts(size, 3, &[2]).expect("parts");
    assert_eq!(parts.completed, 2 * UPLOAD_PART_SIZE as u64);
    assert_eq!(parts.parts.len(), 1);
    assert_eq!(parts.parts[0].progress, size);

    let doubled = upload_parts(5, 1, &[0, 0]).expect("parts");
    assert_eq!(doubled.completed, 0);
    assert_eq!(doubled.parts[1].progress, 10);

    assert!(upload_parts(5, 1, &[0, 1]).is_err());
}

#[test]
fn announces_an_upload() {
    let blocks = vec!["a\"b".to_string(), "c\u{1}\n".to_string()];
    let (plan, first) = upload_plan(7, &blocks, Some("id"));
    assert_eq!(plan.block_list_json, r#"["a\"b","c\u0001\n"]"#);
    assert_eq!(first.method, Method::Post);
    assert_eq!(first.url, "https://pan.baidu.com/rest/2.0/xpan/file");
    assert_eq!(first.query, pairs(&[("method", "precreate"), ("access_token", "token")]));
    assert_eq!(
        first.form,
        pairs(&[
            ("path", "/apps/demo/a.txt"),
            ("size", "7"),
            ("isdir", "0"),
            ("autoinit", "1"),
            ("rtype", "0"),
            ("block_list", r#"["a\"b","c\u0001\n"]"#),
            ("uploadid", "id"),
        ])
    );
    assert_eq!(upload_plan(7, &blocks, Some("")).1.form.len(), 6);
    assert_eq!(upload_plan(7, &blocks, None).1.form.len(), 6);
}

#[test]
fn force_overwrites_in_every_request() {
    for (force, rtype) in [(false, "0"), (true, "3")] {
        let (plan, first) = client()
            .upload_file(
                &UploadRequest {
                    local_path: &LocalPath::from_text("/tmp/a.txt"),
                    remote_path: "apps/demo/a.txt",
                    size: 7,
                    block_list: &["a".to_string()],
                    encrypted: false,
                    resume_uploadid: None,
                    ondup: OnDuplicate::from_force(force),
                },
                "token",
            )
            .expect("upload");
        let expected = ("rtype".to_string(), rtype.to_string());
        assert_eq!(first.form[4], expected);
        assert_eq!(plan.create_request("id").form[3], expected);
    }
}

#[test]
fn opens_a_session_for_the_missing_parts() {
    let blocks = vec!["a".to_string(), "b".to_string()];
    let (plan, _) = upload_plan(7, &blocks, None);
    let session = plan
        .session(PrecreateResponse { uploadid: Some("id".to_string()), block_list: vec![1] })
        .expect("session");
    assert_eq!(session.required_parts, vec![1]);
    let session = plan
        .session(PrecreateResponse { uploadid: Some("id".to_string()), block_list: Vec::new() })
        .expect("session");
    assert_eq!(session.uploadid, "id");
    assert_eq!(session.required_parts, vec![0, 1]);
    assert_eq!(
        plan.session(PrecreateResponse { uploadid: None, block_list: vec![1] }),
        Err(Error::Api("precreate response missing uploadid".to_string()))
    );
}

#[test]
fn follows_an_upload_to_its_end() {
    let (plan, _) = upload_plan(7, &["a".to_string()], None);
    let locate = plan.locate_request("id");
    assert_eq!(locate.method, Method::Get);
    assert_eq!(locate.url, "https://d.pcs.baidu.com/rest/2.0/pcs/file");
    assert_eq!(
        locate.query,
        pairs(&[
            ("method", "locateupload"),
            ("appid", "250528"),
            ("access_token", "token"),
            ("path", "/apps/demo/a.txt"),
            ("uploadid", "id"),
            ("upload_version", "2.0"),
        ])
    );
    let part = plan.part_request("https://c.pcs.baidu.com", "id", 12);
    assert_eq!(part.url, "https://c.pcs.baidu.com/rest/2.0/pcs/superfile2");
    assert_eq!(part.query[4], ("partseq".to_string(), "12".to_string()));
    assert_eq!(part_file_name(12), "part-12");
    let create = plan.create_request("id");
    assert_eq!(
        create.form,
        pairs(&[
            ("path", "/apps/demo/a.txt"),
            ("size", "7"),
            ("isdir", "0"),
            ("rtype", "0"),
            ("uploadid", "id"),
            ("block_list", r#"["a"]"#),
        ])
    );
    let summary =
        plan.summary(CreateResponse { path: None, fs_id: Some(3), size: None, md5: None });
    assert_eq!(summary.path, "/apps/demo/a.txt");
    assert_eq!((summary.size, summary.parts, summary.encrypted), (7, 1, true));
    let summary = plan.summary(CreateResponse {
        path: Some("/other".to_string()),
        fs_id: None,
        size: Some(9),
        md5: Some("m".to_string()),
    });
    assert_eq!((summary.path.as_str(), summary.size), ("/other", 9));
}

#[test]
fn builds_requests_on_directories() {
    let list = client().list_dir("docs", "token").expect("list");
    assert_eq!(list.method, Method::Get);
    assert_eq!(
        list.query,
        pairs(&[("method", "list"), ("dir", "/docs"), ("access_token", "token")])
    );
    let mkdir = client().mkdir("docs", "token").expect("mkdir");
    assert_eq!(mkdir.method, Method::Post);
    assert_eq!(
        mkdir.form,
        pairs(&[("path", "/docs"), ("isdir", "1"), ("size", "0"), ("block_list", "[]")])
    );
    assert!(client().list_dir(" ", "token").is_err());
    assert!(client().mkdir("a//b", "token").is_err());
}

#[test]
fn builds_jobs_on_files() {
    let delete = client().delete("docs/\u{e9}.txt").expect("delete");
    assert_eq!(delete.filelist, "[\"/docs/\u{e9}.txt\"]");
    let request = client().filemanager(&delete, "token");
    assert_eq!(
        request.query,
        pairs(&[
            ("method", "filemanager"),
            ("opera", "delete"),
            ("async", "0"),
            ("access_token", "token"),
        ])
    );
    assert_eq!(request.form, pairs(&[("filelist", "[\"/docs/\u{e9}.txt\"]")]));
    assert_eq!(client().move_path("/a", "/b").expect("move").opera, "move");
    assert_eq!(client().copy_path("/a", "/b").expect("copy").opera, "copy");
    assert!(client().delete("").is_err());
}

#[test]
fn finds_an_entry_by_path_or_name() {
    let lookup = resolve_entry_by_path("/docs/a.txt").expect("lookup");
    assert_eq!((lookup.parent.as_str(), lookup.name.as_str()), ("/docs", "a.txt"));
    let entries = vec![
        entry(1, "/docs/b.txt", "b.txt"),
        entry(2, "/elsewhere", "a.txt"),
        entry(3, "/docs/a.txt", "a.txt"),
    ];
    assert_eq!(lookup.find(entries).expect("entry").fs_id, 2);
    assert_eq!(
        lookup.find(vec![entry(1, "/docs/b.txt", "b.txt")]),
        Err(Error::Api("remote path not found: /docs/a.txt".to_string()))
    );
    assert_eq!(
        resolve_entry_by_path("/docs/.."),
        Err(Error::InvalidRemotePath("/docs/..".to_string()))
    );
}

#[test]
fn asks_for_the_metadata_of_an_entry() {
    let request = get_file_metadata(&entry(12345678901, "/a", "a"), true, "token").expect("request");
    assert_eq!(
        request.query,
        pairs(&[
            ("method", "filemetas"),
            ("access_token", "token"),
            ("fsids", "[12345678901]"),
            ("dlink", "1"),
        ])
    );
    let request = get_file_metadata(&entry(0, "/a", "a"), false, "token").expect("request");
    assert_eq!(request.query[3].1, "0");
    assert_eq!(
        first_metadata(Vec::new(), "/a"),
        Err(Error::Api("no metadata returned for /a".to_string()))
    );
}

#[test]
fn plans_downloads() {
    let plan = client().download_file(&metadata(0, 10, Some("https://d/x")), 0, "token");
    match plan.expect("plan") {
        DownloadPlan::Fetch(request) => {
            assert_eq!(request.url, "https://d/x");
            assert_eq!(request.query, pairs(&[("access_token", "token")]));
            assert_eq!(request.range, None);
        }
        DownloadPlan::Complete => panic!("nothing is here yet"),
    }
    let plan = client().download_file(&metadata(0, 10, Some("https://d/x")), 4, "token");
    match plan.expect("plan") {
        DownloadPlan::Fetch(request) => assert_eq!(request.range.as_deref(), Some("bytes=4-")),
        DownloadPlan::Complete => panic!("not all is here"),
    }
    let plan = client().download_file(&metadata(0, 10, Some("https://d/x")), 10, "token");
    assert_eq!(plan, Ok(DownloadPlan::Complete));
    let plan = client().download_file(&metadata(0, 0, Some("https://d/x")), 0, "token");
    assert!(matches!(plan, Ok(DownloadPlan::Fetch(_))));
}

#[test]
fn refuses_downloads() {
    assert_eq!(
        client().download_file(&metadata(1, 10, None), 11, "token"),
        Err(Error::Api(
            "/apps/demo/a.txt is a directory; download currently supports files only".to_string()
        ))
    );
    assert_eq!(
        client().download_file(&metadata(0, 10, None), 11, "token"),
        Err(Error::Api("download link missing from metadata".to_string()))
    );
    assert_eq!(
        client().download_file(&metadata(0, 10, Some("https://d/x")), 11, "token"),
        Err(Error::Api(
            "local partial file is larger than remote file for /apps/demo/a.txt; remove the \
             partial file and retry"
                .to_string()
        ))
    );
}

#[test]
fn partial_content_is_appended() {
    let start = download_start(4, 206);
    assert_eq!((start.append, start.offset), (true, 4));
    let start = download_start(4, 200);
    assert_eq!((start.append, start.offset), (false, 0));
    let start = download_start(0, 206);
    assert_eq!((start.append, start.offset), (false, 0));
    assert!(is_success(206) && is_success(200));
    assert!(!is_success(199) && !is_success(300));
}

#[test]
fn download_progress_counts_what_arrives() {
    let mut start = download_start(4, 206);
    start.advance(3);
    start.advance(0);
    start.advance(5);
    assert_eq!((start.append, start.offset), (true, 12));
    let mut start = download_start(4, 200);
    start.advance(3);
    assert_eq!(start.offset, 3);
}

#[test]
fn refreshed_token_is_stored_and_used() {
    let token = StoredToken {
        access_token: "new".to_string(),
        refresh_token: "next".to_string(),
        expires_at: 1000,
        scope: None,
    };
    let (used, steps) = client().refreshed(Ok((token, b"{}".to_vec())));
    assert_eq!(used, Ok("new".to_string()));
    assert_eq!(steps, client().token_store.save(b"{}".to_vec()));
    let (used, steps) = client().refreshed(Err(Error::Api("invalid_grant: used".to_string())));
    assert_eq!(used, Err(Error::Api("invalid_grant: used".to_string())));
    assert!(steps.is_empty());
}

#[test]
fn summarizes_downloads() {
    let summary = download_summary(&metadata(0, 10, None), &LocalPath::from_text("/tmp/.a.part"));
    assert_eq!(summary.local_path, LocalPath::from_text("/tmp/.a.part"));
    let summary = summary.finished(LocalPath::from_text("/tmp/a"), true);
    assert_eq!(summary.remote_path, "/apps/demo/a.txt");
    assert_eq!(summary.local_path, LocalPath::from_text("/tmp/a"));
    assert_eq!((summary.size, summary.decrypted), (10, true));
}

#[test]
fn refreshes_tokens_that_run_out() {
    let token = StoredToken {
        access_token: "access".to_string(),
        refresh_token: "refresh".to_string(),
        expires_at: 1000,
        scope: None,
    };
    assert_eq!(
        client().ensure_access_token(&token, 939),
        AccessPlan::Use("access".to_string())
    );
    match client().ensure_access_token(&token, 940) {
        AccessPlan::Refresh(request) => {
            assert_eq!(request.url, "https://openapi.baidu.com/oauth/2.0/token");
            assert_eq!(
                request.query,
                pairs(&[
                    ("grant_type", "refresh_token"),
                    ("refresh_token", "refresh"),
                    ("client_id", "key"),
                    ("client_secret", "secret"),
                ])
            );
        }
        AccessPlan::Use(_) => panic!("the token has run out"),
    }
}
