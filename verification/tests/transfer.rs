use std::collections::BTreeMap;

use baidupan_cli::api::OnDuplicate;
use baidupan_cli::config::ConfigValue;
use baidupan_cli::crypto::{encrypt_bytes, encrypt_file_streaming};
use baidupan_cli::error::Error;
use baidupan_cli::files::FileStep;
use baidupan_cli::path::LocalPath;
use baidupan_cli::transfer::{
    chunked, crypto_failure, read_passphrase, resume_uploadid, sidecar_path, upload_request, BlockList,
    DownloadResumeState, PreparedDownload, PreparedUpload, Sidecars, TransferPlanner,
    UploadResumeState, UploadSource, UploadStateStore, UPLOAD_PART_SIZE,
};
use serde_json::Value;

fn planner() -> TransferPlanner {
    TransferPlanner::new().expect("planner")
}

fn local(text: &str) -> LocalPath {
    LocalPath::from_text(text)
}

fn setting(runtime: Option<&str>) -> ConfigValue {
    ConfigValue { runtime: runtime.map(str::to_string), builtin: None }
}

fn test_pass() -> ConfigValue {
    setting(Some("test-pass"))
}

fn missing_passphrase() -> Error {
    Error::Crypto(
        "encryption/decryption requires BAIDUPAN_CRYPTO_PASSPHRASE environment variable"
            .to_string(),
    )
}

/// Carries out steps on files that are held in memory.
fn perform(files: &mut BTreeMap<Vec<u8>, Vec<u8>>, steps: Vec<FileStep>) {
    for step in steps {
        match step {
            FileStep::CreateDir(_) => {}
            FileStep::Write { path, content } => {
                files.insert(path.bytes, content);
            }
            FileStep::Protect(path) => assert!(files.contains_key(&path.bytes)),
            FileStep::Rename { from, to } => {
                let content = files.remove(&from.bytes).expect("file to rename");
                files.insert(to.bytes, content);
            }
            FileStep::RemoveIfPresent(path) => {
                files.remove(&path.bytes);
            }
            FileStep::Decrypt { source, destination } => {
                let content = planner()
                    .decrypt_downloaded_file(&files[&source.bytes], test_pass())
                    .expect("decrypt");
                files.insert(destination.bytes, content);
            }
        }
    }
}

fn text(value: &Value, name: &str) -> String {
    value[name].as_str().expect("text").to_string()
}

fn state_to_json(state: &UploadResumeState) -> Vec<u8> {
    let mut members = serde_json::Map::new();
    members.insert("session_key".to_string(), state.session_key.clone().into());
    members.insert("source_path".to_string(), state.source_path.display().into());
    members.insert("remote_path".to_string(), state.remote_path.clone().into());
    members.insert("materialized_path".to_string(), state.materialized_path.display().into());
    members.insert("size".to_string(), state.size.into());
    members.insert("encrypted".to_string(), state.encrypted.into());
    members.insert("block_list".to_string(), state.block_list.clone().into());
    members.insert("uploadid".to_string(), state.uploadid.clone().into());
    serde_json::to_vec_pretty(&Value::Object(members)).expect("json")
}

fn state_from_json(json: &[u8]) -> UploadResumeState {
    let value: Value = serde_json::from_slice(json).expect("json");
    let blocks = value["block_list"].as_array().expect("blocks");
    UploadResumeState {
        session_key: text(&value, "session_key"),
        source_path: local(&text(&value, "source_path")),
        remote_path: text(&value, "remote_path"),
        materialized_path: local(&text(&value, "materialized_path")),
        size: value["size"].as_u64().expect("size"),
        encrypted: value["encrypted"].as_bool().expect("encrypted"),
        block_list: blocks.iter().map(|b| b.as_str().expect("block").to_string()).collect(),
        uploadid: text(&value, "uploadid"),
    }
}

fn state() -> UploadResumeState {
    UploadResumeState {
        session_key: "session".to_string(),
        source_path: local("/tmp/source.txt"),
        remote_path: "/apps/demo/source.txt".to_string(),
        materialized_path: local("/tmp/cache.bin"),
        size: 42,
        encrypted: true,
        block_list: vec!["abc".to_string()],
        uploadid: "uploadid".to_string(),
    }
}

fn prepared_upload() -> PreparedUpload {
    PreparedUpload {
        source: local("/tmp/source.txt"),
        materialized: local("/tmp/cache.bin"),
        size: 42,
        encrypted: true,
    }
}

fn found(remote: &str, decrypt: bool, temp_len: u64) -> Sidecars {
    Sidecars::Found {
        state: DownloadResumeState { remote_path: remote.to_string(), decrypt },
        temp_len,
    }
}

#[test]
fn prepares_encrypted_upload() {
    assert_eq!(
        planner().prepare_upload(true, test_pass()),
        Ok(UploadSource::EncryptToTemp)
    );
    let passphrase = read_passphrase(test_pass()).expect("passphrase");
    let content = encrypt_file_streaming(b"hello", &passphrase).expect("prepare");
    let prepared = planner().prepared_upload(
        &local("/tmp/note.txt"),
        Some(local("/tmp/.tmpXYZ")),
        content.len() as u64,
    );

    assert!(prepared.encrypted);
    assert_ne!(prepared.materialized, prepared.source);
    assert!(prepared.size > 0);
}

#[test]
fn prepares_plain_upload() {
    assert_eq!(planner().prepare_upload(false, setting(None)), Ok(UploadSource::Plain));
    assert_eq!(
        planner().prepare_upload_with_cache(false, Some(&local("/c/x.bin")), true, setting(None)),
        Ok(UploadSource::Plain)
    );
    let prepared = planner().prepared_upload(&local("/tmp/note.txt"), None, 5);
    assert!(!prepared.encrypted);
    assert_eq!(prepared.materialized, local("/tmp/note.txt"));
    assert_eq!(prepared.size, 5);
}

#[test]
fn encryption_needs_a_passphrase() {
    let cached = local("/tmp/cache/payload.bin");
    for setting in [setting(None), setting(Some("  "))] {
        assert_eq!(planner().prepare_upload(true, setting.clone()), Err(missing_passphrase()));
        for exists in [false, true] {
            assert_eq!(
                planner().prepare_upload_with_cache(true, Some(&cached), exists, setting.clone()),
                Err(missing_passphrase())
            );
        }
    }
}

#[test]
fn decrypts_downloaded_file() {
    let encrypted = encrypt_bytes(b"world", "test-pass").expect("encrypt bytes");

    assert!(!chunked(&encrypted));
    assert_eq!(
        planner().decrypt_downloaded_file(&encrypted, test_pass()).expect("decrypt"),
        b"world"
    );
}

#[test]
fn decrypts_downloaded_file_v2() {
    let encrypted = encrypt_file_streaming(b"streaming world", "test-pass").expect("encrypt v2");

    assert!(chunked(&encrypted[..8]));
    assert!(!chunked(&encrypted[..7]));
    assert_eq!(
        planner().decrypt_downloaded_file(&encrypted, test_pass()).expect("decrypt v2"),
        b"streaming world"
    );
}

#[test]
fn reports_failed_decryption() {
    let encrypted = encrypt_file_streaming(b"x", "test-pass").expect("encrypt");
    assert_eq!(
        planner().decrypt_downloaded_file(&encrypted, setting(Some("other"))),
        Err(Error::Crypto(
            "cryptography error: invalid passphrase or corrupted ciphertext".to_string()
        ))
    );
    assert_eq!(
        planner().decrypt_downloaded_file(b"plain", setting(Some("other"))),
        Err(Error::Crypto("unsupported encrypted file format".to_string()))
    );
    assert_eq!(
        crypto_failure(&Error::NotLoggedIn),
        Error::Crypto("token file does not exist; run `baidupan login` first".to_string())
    );
}

#[test]
fn passphrase_must_be_set() {
    assert_eq!(read_passphrase(setting(Some("  "))), Err(missing_passphrase()));
    assert_eq!(
        planner().decrypt_downloaded_file(b"plain", setting(None)),
        Err(missing_passphrase())
    );
}

#[test]
fn computes_md5_block_list() {
    let blocks = planner().block_list(b"abc");

    assert_eq!(blocks, vec!["900150983cd24fb0d6963f7d28e17f72"]);
}

#[test]
fn block_list_empty_file() {
    let blocks = planner().block_list(b"");

    assert_eq!(blocks.len(), 1);
    assert_eq!(blocks[0], format!("{:x}", md5::compute([])));
    assert_eq!(blocks[0], "d41d8cd98f00b204e9800998ecf8427e");
}

#[test]
fn block_list_has_one_digest_for_each_block() {
    let content: Vec<u8> = (0u8..=250).cycle().take(2 * UPLOAD_PART_SIZE + 3).collect();
    let blocks = planner().block_list(&content);
    assert_eq!(blocks.len(), 3);
    let mut list = BlockList::new();
    for block in content.chunks(UPLOAD_PART_SIZE) {
        list.push(block);
    }
    assert_eq!(list.finish(), blocks);
    assert_eq!(planner().block_list(&content[..UPLOAD_PART_SIZE]), blocks[..1]);
}

#[test]
fn stores_and_loads_upload_resume_state() {
    let store = UploadStateStore::new(local("/tmp/uploads"));
    let path = local("/tmp/uploads/sessions/session.json");
    let temp = local("/tmp/uploads/sessions/session.json.tmp");

    let mut files = BTreeMap::new();
    perform(&mut files, store.save(&state(), state_to_json(&state())));
    let json = &files[&store.state_path("session").bytes];
    assert_eq!(state_from_json(json), state());
    assert_eq!(files.len(), 1);
    perform(&mut files, store.remove("session"));
    assert!(files.is_empty());

    assert_eq!(store.state_path("session"), path);
    assert_eq!(
        store.save(&state(), b"{}".to_vec()),
        vec![
            FileStep::CreateDir(local("/tmp/uploads/sessions")),
            FileStep::Write { path: temp.clone(), content: b"{}".to_vec() },
            FileStep::Rename { from: temp, to: path.clone() },
        ]
    );
    assert_eq!(store.remove("session"), vec![FileStep::RemoveIfPresent(path.clone())]);
    assert_eq!(
        store.cleanup_success("session", &local("/tmp/cache.bin"), false),
        vec![FileStep::RemoveIfPresent(path.clone())]
    );
    assert_eq!(
        store.cleanup_success("session", &local("/tmp/cache.bin"), true),
        vec![
            FileStep::RemoveIfPresent(path),
            FileStep::RemoveIfPresent(local("/tmp/cache.bin")),
        ]
    );
}

#[test]
fn session_keys_tell_uploads_apart() {
    let store = UploadStateStore::new(local("/tmp/uploads"));
    let key = store.session_key(&local("/tmp/a"), 3, 17, "/apps/demo/a", true);
    assert_eq!(key, format!("{:x}", md5::compute("/tmp/a|/apps/demo/a|3|17|true")));
    assert_ne!(key, store.session_key(&local("/tmp/a"), 3, 17, "/apps/demo/a", false));
    assert_ne!(key, store.session_key(&local("/tmp/a"), 3, 18, "/apps/demo/a", true));
    assert_eq!(store.cache_path("k"), local("/tmp/uploads/cache/k.bin"));
}

#[test]
fn reuses_cached_encrypted_upload() {
    let cached = local("/tmp/cache/payload.bin");
    let first = planner().prepare_upload_with_cache(true, Some(&cached), false, test_pass());
    let second = planner().prepare_upload_with_cache(true, Some(&cached), true, test_pass());

    assert_eq!(
        first,
        Ok(UploadSource::EncryptTo {
            steps: vec![FileStep::CreateDir(local("/tmp/cache"))],
            path: cached.clone(),
        })
    );
    assert_eq!(second, Ok(UploadSource::Cached(cached)));
}

#[test]
fn prepares_a_cached_upload_alike() {
    let source = local("/tmp/note.txt");
    let cached = local("/tmp/cache/payload.bin");
    let mut files = BTreeMap::new();
    let mut prepared = Vec::new();
    for _ in 0..2 {
        let is_cached = files.contains_key(&cached.bytes);
        let path = match planner()
            .prepare_upload_with_cache(true, Some(&cached), is_cached, test_pass())
            .expect("prepare")
        {
            UploadSource::EncryptTo { steps, path } => {
                assert!(!is_cached);
                perform(&mut files, steps);
                let passphrase = read_passphrase(test_pass()).expect("passphrase");
                let content = encrypt_file_streaming(b"hello", &passphrase).expect("encrypt");
                files.insert(path.bytes.clone(), content);
                path
            }
            UploadSource::Cached(path) => {
                assert!(is_cached);
                path
            }
            other => panic!("not for the cache: {:?}", other),
        };
        let size = files[&path.bytes].len() as u64;
        prepared.push(planner().prepared_upload(&source, Some(path), size));
    }

    assert_eq!(prepared[0].materialized, cached);
    assert_eq!(prepared[1].materialized, cached);
    assert_eq!(prepared[0].size, prepared[1].size);
    assert_eq!(prepared[0], prepared[1]);
}

#[test]
fn states_of_sessions_are_kept_apart() {
    let store = UploadStateStore::new(local("/tmp/uploads"));
    let mut first = state();
    first.session_key = "\u{4e0a}\u{4f20}".to_string();
    let mut second = state();
    second.session_key = "a.json".to_string();
    second.uploadid = "other".to_string();
    let mut third = state();
    third.session_key = "a".to_string();

    let mut files = BTreeMap::new();
    for kept in [&first, &second, &third] {
        assert!(!files.contains_key(&store.state_path(&kept.session_key).bytes));
        perform(&mut files, store.save(kept, state_to_json(kept)));
    }
    for kept in [&first, &second, &third] {
        let json = &files[&store.state_path(&kept.session_key).bytes];
        assert_eq!(&state_from_json(json), kept);
    }
    perform(&mut files, store.remove("a"));
    assert!(!files.contains_key(&store.state_path("a").bytes));
    for kept in [&first, &second] {
        let json = &files[&store.state_path(&kept.session_key).bytes];
        assert_eq!(&state_from_json(json), kept);
    }
}

#[test]
fn cleans_up_after_an_upload() {
    let store = UploadStateStore::new(local("/tmp/uploads"));
    let uploaded = local("/tmp/cache.bin");
    let bystander = local("/tmp/other");
    for encrypted in [false, true] {
        let mut files = BTreeMap::new();
        files.insert(uploaded.bytes.clone(), b"payload".to_vec());
        files.insert(bystander.bytes.clone(), b"other".to_vec());
        perform(&mut files, store.save(&state(), state_to_json(&state())));

        perform(&mut files, store.cleanup_success("session", &uploaded, encrypted));
        assert!(!files.contains_key(&store.state_path("session").bytes));
        assert_eq!(files.contains_key(&uploaded.bytes), !encrypted);
        assert_eq!(files[&bystander.bytes], b"other");
        assert!(encrypted || files[&uploaded.bytes] == b"payload");

        let once = files.clone();
        perform(&mut files, store.cleanup_success("session", &uploaded, encrypted));
        assert_eq!(files, once);
    }
}

#[test]
fn resumes_the_same_upload_only() {
    let blocks = vec!["abc".to_string()];
    let remote = "/apps/demo/source.txt";
    let kept = state();
    assert_eq!(
        resume_uploadid(Some(&kept), &prepared_upload(), remote, &blocks),
        Some("uploadid")
    );
    assert_eq!(resume_uploadid(None, &prepared_upload(), remote, &blocks), None);
    assert_eq!(resume_uploadid(Some(&kept), &prepared_upload(), "/other", &blocks), None);
    assert_eq!(resume_uploadid(Some(&kept), &prepared_upload(), remote, &[]), None);
    assert_eq!(
        resume_uploadid(Some(&kept), &prepared_upload(), remote, &["abd".to_string()]),
        None
    );
    let mut other = prepared_upload();
    other.size = 43;
    assert_eq!(resume_uploadid(Some(&kept), &other, remote, &blocks), None);
    other = prepared_upload();
    other.encrypted = false;
    assert_eq!(resume_uploadid(Some(&kept), &other, remote, &blocks), None);
    other = prepared_upload();
    other.source = local("/tmp/./source.txt");
    assert_eq!(resume_uploadid(Some(&kept), &other, remote, &blocks), Some("uploadid"));
    other.source = local("source.txt");
    assert_eq!(resume_uploadid(Some(&kept), &other, remote, &blocks), None);
    let mut unknown = state();
    unknown.uploadid = String::new();
    assert_eq!(resume_uploadid(Some(&unknown), &prepared_upload(), remote, &blocks), None);
}

#[test]
fn upload_requests_carry_the_kept_session() {
    let blocks = vec!["abc".to_string()];
    let kept = state();
    let prepared = prepared_upload();
    let request = upload_request(&prepared, "/apps/demo/source.txt", &blocks, Some(&kept), false);
    assert_eq!(request.local_path, &local("/tmp/cache.bin"));
    assert_eq!((request.size, request.encrypted), (42, true));
    assert_eq!(request.resume_uploadid, Some("uploadid"));
    assert_eq!(request.ondup, OnDuplicate::Fail);
    let request = upload_request(&prepared, "/apps/demo/other.txt", &blocks, Some(&kept), true);
    assert_eq!(request.resume_uploadid, None);
    assert_eq!(request.ondup, OnDuplicate::Overwrite);
}

#[test]
fn keeps_the_state_of_a_session() {
    let kept = UploadResumeState::of_session(
        "session",
        &prepared_upload(),
        "/apps/demo/source.txt",
        &["abc".to_string()],
        "uploadid",
    );
    assert_eq!(kept, state());
    assert!(kept.is_compatible(
        &local("/tmp/source.txt"),
        "/apps/demo/source.txt",
        &local("/tmp/cache.bin"),
        42,
        true,
        &["abc".to_string()],
    ));
}

#[test]
fn names_sidecar_files() {
    assert_eq!(
        sidecar_path(&local("/tmp/movie.bin"), "baidupan.part"),
        local("/tmp/.movie.bin.baidupan.part")
    );
    assert_eq!(
        sidecar_path(&local("movie.bin"), "baidupan.resume.json"),
        local("./.movie.bin.baidupan.resume.json")
    );
    assert_eq!(sidecar_path(&local("/"), "x"), local("./.download.x"));
    assert_eq!(
        sidecar_path(&LocalPath { bytes: b"/a/\xff".to_vec() }, "x"),
        local("/a/.download.x")
    );
}

#[test]
fn prepares_download_resume_when_sidecar_matches() {
    let destination = local("/tmp/movie.bin");
    let (prepared, steps) = planner()
        .prepare_download(
            "/apps/movie.bin",
            &destination,
            false,
            false,
            false,
            &found("/apps/movie.bin", false, 7),
            b"{}".to_vec(),
        )
        .expect("prepare download");

    assert_eq!(prepared.resume_from, 7);
    assert_eq!(prepared.temp_path, sidecar_path(&destination, "baidupan.part"));
    assert_eq!(
        steps,
        vec![FileStep::Write {
            path: sidecar_path(&destination, "baidupan.resume.json"),
            content: b"{}".to_vec(),
        }]
    );
}

#[test]
fn discards_stale_download_resume_state() {
    let destination = local("/tmp/movie.bin");
    for sidecars in [
        found("/apps/other.bin", false, 7),
        found("/apps/movie.bin", true, 7),
        Sidecars::Stray,
    ] {
        let (prepared, steps) = planner()
            .prepare_download(
                "/apps/movie.bin",
                &destination,
                false,
                false,
                false,
                &sidecars,
                b"{}".to_vec(),
            )
            .expect("prepare download");

        assert_eq!(prepared.resume_from, 0);
        assert_eq!(
            steps,
            vec![
                FileStep::RemoveIfPresent(prepared.temp_path.clone()),
                FileStep::RemoveIfPresent(prepared.state_path.clone()),
                FileStep::Write { path: prepared.state_path, content: b"{}".to_vec() },
            ]
        );
    }
}

#[test]
fn existing_destination_needs_force() {
    let destination = local("/tmp/movie.bin");
    let prepare = |force| {
        planner().prepare_download(
            "/apps/movie.bin",
            &destination,
            true,
            force,
            true,
            &Sidecars::Absent,
            Vec::new(),
        )
    };
    assert_eq!(
        prepare(false),
        Err(Error::Api("destination /tmp/movie.bin exists; rerun with --force".to_string()))
    );
    let (prepared, steps) = prepare(true).expect("prepare");
    assert!(prepared.decrypt);
    assert_eq!(steps.len(), 1);
    assert_eq!(planner().assert_download_target(&destination, false, false), Ok(()));
}

#[test]
fn finalizes_plain_download_with_force() {
    let destination = local("/tmp/movie.bin");
    let temp_path = sidecar_path(&destination, "baidupan.part");
    let state_path = sidecar_path(&destination, "baidupan.resume.json");
    let mut prepared = PreparedDownload {
        remote_path: "/apps/movie.bin".to_string(),
        destination: destination.clone(),
        temp_path: temp_path.clone(),
        state_path: state_path.clone(),
        resume_from: 3,
        decrypt: false,
    };
    let finalize = |prepared: &PreparedDownload, force, exists| {
        planner().finalize_download(prepared, force, exists, test_pass()).expect("finalize")
    };

    let mut files = BTreeMap::new();
    files.insert(destination.bytes.clone(), b"old".to_vec());
    files.insert(temp_path.bytes.clone(), b"new".to_vec());
    files.insert(state_path.bytes.clone(), b"{}".to_vec());
    perform(&mut files, finalize(&prepared, true, true));
    assert_eq!(files[&destination.bytes], b"new");
    assert_eq!(files.len(), 1);

    assert_eq!(
        finalize(&prepared, true, true),
        vec![
            FileStep::RemoveIfPresent(destination.clone()),
            FileStep::Rename { from: temp_path.clone(), to: destination.clone() },
            FileStep::RemoveIfPresent(state_path.clone()),
        ]
    );
    assert_eq!(finalize(&prepared, true, false).len(), 2);
    assert_eq!(finalize(&prepared, false, true).len(), 2);
    assert!(planner().finalize_download(&prepared, true, true, setting(None)).is_ok());

    prepared.decrypt = true;
    assert_eq!(
        finalize(&prepared, true, true),
        vec![
            FileStep::Decrypt { source: temp_path.clone(), destination: destination.clone() },
            FileStep::RemoveIfPresent(temp_path.clone()),
            FileStep::RemoveIfPresent(state_path),
        ]
    );
    assert_eq!(
        planner().finalize_download(&prepared, true, true, setting(None)),
        Err(missing_passphrase())
    );

    let mut files = BTreeMap::new();
    files.insert(temp_path.bytes, encrypt_bytes(b"world", "test-pass").expect("encrypt"));
    perform(&mut files, finalize(&prepared, false, false));
    assert_eq!(files[&destination.bytes], b"world");
    assert_eq!(files.len(), 1);
}
