use rf_desktop::json::{Json, JsonNumber};
use rf_desktop::mod_updater::{
    allowed_mod_relative_path, allowed_path, apply_update, archive_fetch_error,
    archive_install_report, bundled_ref, expected_paths, file_install_report, staged_paths,
    check_archive_size, check_file_size, check_for_update, check_for_update_from_api,
    check_for_update_from_manifest, copy_legacy_mod_tree, copy_staged_files, download_and_install,
    is_sha, is_stale_bundle, judge_archive_entry, local_ref, migrate_legacy_update_root,
    plan_tree_update, safe_archive_relative_path, safe_relative_path, save_download_file,
    stage_tree_file, staging_dir, unpack_archive, validate_archive_request, ApplyAction,
    ApplyStage, ArchiveFetch, LegacyCopy, ModDownload, StagedCopy, StaticModUpdate, TreeEntry,
    TreeResponse, MAX_ARCHIVE_SIZE, MAX_FILE_SIZE,
};
use rf_desktop::path::Platform;
use rf_desktop::updater::{Reply, SaveAction, SaveStage, GITHUB_RELEASE_DOWNLOAD_PREFIX};
use std::collections::BTreeMap;
use std::io::{Cursor, Write};
use zip::write::SimpleFileOptions;
use zip::ZipWriter;

const SHA: &str = "7bfd9ad4d56362c2f0fc9fffc34cb91d5b776d39";
const OTHER_SHA: &str = "0123456789ABCDEFabcdef012345678901234567";

#[test]
fn validates_update_paths() {
    assert!(allowed_path("web/mod/js/main.bundle.js"));
    assert!(allowed_path("web/mod/data/transportRoutes.json"));
    assert!(!allowed_path("web/mod/js/core/api.js"));
    assert!(!allowed_path("web/mod/data/RFcity.yaml"));
    assert_eq!(
        safe_relative_path("web/mod/js/main.bundle.js"),
        Some("js/main.bundle.js")
    );
    assert_eq!(safe_relative_path("web/mod/../secret.json"), None);
}

#[test]
fn staged_copy_preserves_subdirectories() {
    // The stage: two directories with a file each.
    let stage: BTreeMap<&str, Vec<(&str, Option<&[u8]>)>> = BTreeMap::from([
        ("", vec![("js", None), ("data", None)]),
        ("js", vec![("main.bundle.js", Some(&b"bundle"[..]))]),
        ("data", vec![("routes.json", Some(&b"{}"[..]))]),
    ]);
    let mut destination: BTreeMap<String, Vec<u8>> = BTreeMap::new();
    let mut open = vec![String::new()];
    while let Some(relative) = open.pop() {
        for (name, content) in &stage[relative.as_str()] {
            match copy_staged_files(&relative, name, content.is_none()) {
                StagedCopy::Descend(path) => open.push(path),
                StagedCopy::Copy(path) => {
                    destination.insert(path, content.unwrap().to_vec());
                }
            }
        }
    }

    assert_eq!(destination["js/main.bundle.js"], b"bundle");
    assert_eq!(destination["data/routes.json"], b"{}");
    assert!(!destination.contains_key("main.bundle.js"));
}

#[test]
fn private_files_are_never_installed() {
    assert!(!allowed_path("web/mod/data/config.json"));
    assert!(!allowed_path("web/mod/js/key.pfx"));
    assert!(!allowed_path("web/other/main.bundle.js"));
    assert!(allowed_path("web/mod/js/main.bundle.js.LICENSE.txt"));
    assert!(allowed_mod_relative_path("data/icon.svg"));
    assert!(!allowed_mod_relative_path("data/accounts.db"));
}

#[test]
fn repository_paths_stay_inside() {
    assert_eq!(safe_relative_path("web/mod/"), None);
    assert_eq!(safe_relative_path("web/mod//etc"), None);
    assert_eq!(safe_relative_path("web/mod/a\\b"), None);
    assert_eq!(safe_relative_path("mod/js/main.bundle.js"), None);
}

#[test]
fn archive_roots_are_equivalent() {
    let expected = Some("js/main.bundle.js");
    assert_eq!(safe_archive_relative_path("js/main.bundle.js"), expected);
    assert_eq!(safe_archive_relative_path("./js/main.bundle.js"), expected);
    assert_eq!(safe_archive_relative_path("mod/js/main.bundle.js"), expected);
    assert_eq!(safe_archive_relative_path("./web/mod/js/main.bundle.js"), expected);
    assert_eq!(safe_archive_relative_path("mod/mod/js/main.bundle.js"), None);
    assert_eq!(safe_archive_relative_path("././js/main.bundle.js"), None);
    assert_eq!(safe_archive_relative_path("js/../main.bundle.js"), None);
    assert_eq!(safe_archive_relative_path("js//main.bundle.js"), None);
    assert_eq!(safe_archive_relative_path("/js/main.bundle.js"), None);
    assert_eq!(safe_archive_relative_path("js\\main.bundle.js"), None);
    assert_eq!(safe_archive_relative_path(""), None);
}

#[test]
fn commit_names_have_forty_hexadecimal_digits() {
    assert!(is_sha(SHA));
    assert!(is_sha(OTHER_SHA));
    assert!(!is_sha(&SHA[1..]));
    assert!(!is_sha("g123456789ABCDEFabcdef012345678901234567"));
}

#[test]
fn archive_requests_are_validated() {
    let url = format!("{GITHUB_RELEASE_DOWNLOAD_PREFIX}v1/mod.zip");
    let check = |sha: &str, url: &str, name: &str| {
        validate_archive_request(sha, url, name, Platform::Linux)
    };
    assert_eq!(check(SHA, &url, "mod.ZIP"), Ok(()));
    assert_eq!(check("main", &url, "mod.zip"), Err("更新版本識別碼格式錯誤".to_string()));
    assert_eq!(
        check(SHA, "https://example.com/mod.zip", "mod.zip"),
        Err("拒絕非 GitHub Releases 的 Mod 更新下載網址".to_string())
    );
    assert_eq!(check(SHA, &url, "a/mod.zip"), Err("Mod 更新檔名無效".to_string()));
    assert_eq!(check(SHA, &url, "mod.tar"), Err("Mod 更新檔案必須是 ZIP".to_string()));
}

fn archive(entries: &[(&str, &[u8])]) -> Vec<u8> {
    let mut writer = ZipWriter::new(Cursor::new(Vec::new()));
    for (name, data) in entries {
        if name.ends_with('/') {
            writer.add_directory(*name, SimpleFileOptions::default()).unwrap();
        } else {
            writer.start_file(*name, SimpleFileOptions::default()).unwrap();
            writer.write_all(data).unwrap();
        }
    }
    writer.finish().unwrap().into_inner()
}

#[test]
fn archives_are_unpacked() {
    let bytes = archive(&[
        ("mod/", b""),
        ("mod/js/main.bundle.js", b"console.log(1)"),
        ("mod/data/routes.json", b"{\"a\":1}"),
    ]);
    let files = unpack_archive(bytes).ok().unwrap();
    assert_eq!(files.len(), 2);
    assert_eq!(files[0].relative, "js/main.bundle.js");
    assert_eq!(files[0].data, b"console.log(1)");
    assert_eq!(files[1].relative, "data/routes.json");
    assert_eq!(files[1].data, b"{\"a\":1}");
    assert_eq!(staged_paths(&files), ["js/main.bundle.js", "data/routes.json"]);
}

#[test]
fn bad_archives_are_refused() {
    let error = |bytes| unpack_archive(bytes).err().unwrap();
    assert!(error(b"no archive".to_vec()).starts_with("Mod 更新壓縮檔格式錯誤："));
    assert_eq!(
        error(archive(&[("mod/js/main.bundle.js", b"x"), ("mod/js/core/api.js", b"y")])),
        "Mod 更新包含不允許的路徑：mod/js/core/api.js"
    );
    assert_eq!(
        error(archive(&[("mod/data/routes.json", b"{}")])),
        "Mod 更新內容缺少 main.bundle.js"
    );
    assert_eq!(error(archive(&[])), "Mod 更新內容缺少 main.bundle.js");
}

#[test]
fn damaged_entries_are_refused() {
    let mut bytes = archive(&[("js/main.bundle.js", b"console.log(1); console.log(1);")]);
    let start = bytes
        .windows(b"main.bundle.js".len())
        .position(|window| window == b"main.bundle.js")
        .unwrap()
        + b"main.bundle.js".len();
    bytes[start + 2] ^= 0xff;
    assert!(unpack_archive(bytes).is_err());
}

#[test]
fn oversized_entries_are_refused() {
    assert_eq!(
        judge_archive_entry("mod/js/main.bundle.js", false, MAX_FILE_SIZE + 1),
        Err("Mod 更新檔案過大：js/main.bundle.js".to_string())
    );
    assert_eq!(
        judge_archive_entry("mod/js/main.bundle.js", false, MAX_FILE_SIZE),
        Ok(Some("js/main.bundle.js".to_string()))
    );
    assert_eq!(judge_archive_entry("anything/", true, 0), Ok(None));
    let large = vec![b' '; MAX_FILE_SIZE as usize + 1];
    assert_eq!(
        unpack_archive(archive(&[("js/main.bundle.js", &large)])).err().unwrap(),
        "Mod 更新檔案過大：js/main.bundle.js"
    );
}

fn entry(path: &str, kind: &str, size: Option<u64>) -> TreeEntry {
    TreeEntry { path: path.to_string(), entry_type: kind.to_string(), size }
}

#[test]
fn repository_updates_are_planned() {
    let main = || entry("web/mod/js/main.bundle.js", "blob", Some(10));
    let plan = |tree, truncated| plan_tree_update(&TreeResponse { tree, truncated });
    assert_eq!(
        plan(
            vec![
                entry("README.md", "blob", Some(1)),
                entry("web/mod/js", "tree", None),
                main(),
                entry("web/mod/data/a.yaml", "blob", None),
            ],
            false
        ),
        Ok(vec![
            "web/mod/js/main.bundle.js".to_string(),
            "web/mod/data/a.yaml".to_string()
        ])
    );
    assert_eq!(
        plan(vec![main()], true),
        Err("GitHub 檔案清單過大，取消更新以避免不完整安裝".to_string())
    );
    assert_eq!(
        plan(vec![entry("web/mod/data/a.yaml", "blob", None)], false),
        Err("更新內容缺少 main.bundle.js".to_string())
    );
    assert_eq!(
        plan(
            vec![main(), entry("web/mod/data/a.yaml", "blob", Some(MAX_FILE_SIZE + 1))],
            false
        ),
        Err("更新檔案過大：web/mod/data/a.yaml".to_string())
    );
}

#[test]
fn repository_files_are_staged() {
    let file = stage_tree_file("web/mod/js/main.bundle.js", SHA).ok().unwrap();
    assert_eq!(file.relative, "js/main.bundle.js");
    assert_eq!(
        file.url,
        format!("https://raw.githubusercontent.com/MoLinOwO/ReversedFront_Public/{SHA}/web/mod/js/main.bundle.js")
    );
    assert_eq!(
        stage_tree_file("web/mod/js/a..bundle.js", SHA).err().unwrap(),
        "不安全的更新路徑：web/mod/js/a..bundle.js"
    );
    assert_eq!(check_file_size("p", None), Ok(()));
    assert_eq!(check_file_size("p", Some(MAX_FILE_SIZE)), Ok(()));
    assert_eq!(
        check_file_size("p", Some(MAX_FILE_SIZE + 1)),
        Err("更新檔案過大：p".to_string())
    );
    assert_eq!(check_archive_size(Some(MAX_ARCHIVE_SIZE)), Ok(()));
    assert_eq!(
        check_archive_size(Some(MAX_ARCHIVE_SIZE + 1)),
        Err("Mod 更新壓縮檔過大".to_string())
    );
}

#[test]
fn stale_bundles_are_removed_and_expected_ones_kept() {
    let expected = vec!["js/main.bundle.js".to_string()];
    assert!(is_stale_bundle("old.bundle.js", true, &expected));
    assert!(is_stale_bundle("old.LICENSE.txt", true, &expected));
    assert!(!is_stale_bundle("main.bundle.js", true, &expected));
    assert!(!is_stale_bundle("old.bundle.js", false, &expected));
    assert!(!is_stale_bundle("notes.txt", true, &expected));
}

#[test]
fn mod_downloads_are_chosen() {
    let url = format!("{GITHUB_RELEASE_DOWNLOAD_PREFIX}v1/mod.zip");
    let linux = Platform::Linux;
    assert!(matches!(
        download_and_install(SHA, Some(&url), Some("mod.zip"), linux),
        Ok(ModDownload::Archive { filename: "mod.zip", .. })
    ));
    assert!(matches!(download_and_install(SHA, None, None, linux), Ok(ModDownload::Files)));
    assert_eq!(
        download_and_install(SHA, None, Some("mod.zip"), linux).err().unwrap(),
        "缺少 Mod 更新下載網址"
    );
    assert_eq!(
        download_and_install(SHA, Some(&url), None, linux).err().unwrap(),
        "缺少 Mod 更新檔名"
    );
    assert_eq!(
        download_and_install("main", None, None, linux).err().unwrap(),
        "更新版本識別碼格式錯誤"
    );
}

#[test]
fn installed_version_is_current() {
    assert_eq!(local_ref(Some(OTHER_SHA.to_string()), SHA), OTHER_SHA);
    assert_eq!(local_ref(Some("main".to_string()), SHA), SHA);
    assert_eq!(local_ref(None, SHA), SHA);
    assert_eq!(bundled_ref(Some(OTHER_SHA.to_string()), None, SHA), OTHER_SHA);
    assert_eq!(
        bundled_ref(Some("x".to_string()), Some(OTHER_SHA.to_string()), SHA),
        SHA
    );
    assert_eq!(bundled_ref(None, Some(OTHER_SHA.to_string()), SHA), OTHER_SHA);
}

#[test]
fn mod_updates_from_the_api() {
    let info = check_for_update_from_api(
        Reply::Document(OTHER_SHA.to_string()),
        Ok(SHA.to_string()),
    )
    .ok()
    .unwrap();
    assert!(info.has_update);
    assert_eq!(info.current_ref, SHA);
    assert_eq!(info.remote_ref, OTHER_SHA);
    assert_eq!(info.archive, None);
    assert_eq!(info.source, "GitHub main");
    let told = check_for_update(info);
    assert!(matches!(told.get("hasUpdate"), Some(Json::Bool(true))));
    assert!(matches!(told.get("currentRef"), Some(Json::Text(text)) if text == SHA));
    assert!(matches!(told.get("remoteRef"), Some(Json::Text(text)) if text == OTHER_SHA));
    assert!(matches!(
        told.get("repository"),
        Some(Json::Text(text)) if text == "MoLinOwO/ReversedFront_Public"
    ));
    assert!(matches!(told.get("source"), Some(Json::Text(text)) if text == "GitHub main"));
    assert!(told.get("downloadUrl").is_none());
    let error = |reply, current| check_for_update_from_api(reply, current).err().unwrap();
    assert_eq!(
        error(Reply::Document("main".to_string()), Ok(SHA.to_string())),
        "GitHub 回傳的版本識別碼格式錯誤"
    );
    assert_eq!(error(Reply::Refused("x".to_string()), Ok(SHA.to_string())), "x");
    assert_eq!(
        error(Reply::Document(SHA.to_string()), Err("y".to_string())),
        "y"
    );
}

#[test]
fn mod_updates_from_the_manifest() {
    let update = |sha: &str| StaticModUpdate {
        remote_ref: sha.to_string(),
        download_url: "u".to_string(),
        filename: "f".to_string(),
    };
    let info = check_for_update_from_manifest(
        Reply::Document(Some(update(SHA))),
        Ok(SHA.to_string()),
    )
    .ok()
    .unwrap();
    assert!(!info.has_update);
    assert_eq!(info.archive, Some(("u".to_string(), "f".to_string())));
    assert_eq!(info.source, "GitHub Release update.json");
    let told = check_for_update(info);
    assert!(matches!(told.get("downloadUrl"), Some(Json::Text(text)) if text == "u"));
    assert!(matches!(told.get("filename"), Some(Json::Text(text)) if text == "f"));
    assert_eq!(
        check_for_update_from_manifest(Reply::Document(None), Ok(SHA.to_string())).err().unwrap(),
        "靜態更新描述檔缺少 Mod 資訊"
    );
    assert_eq!(
        check_for_update_from_manifest(
            Reply::Document(Some(update("x"))),
            Ok(SHA.to_string())
        )
        .err()
        .unwrap(),
        "靜態更新描述檔的 Mod 版本識別碼格式錯誤"
    );
}

#[test]
fn earlier_mods_are_taken_over() {
    let record = || Some(SHA.to_string());
    assert_eq!(migrate_legacy_update_root(false, record(), true), record());
    assert_eq!(migrate_legacy_update_root(true, record(), true), None);
    assert_eq!(migrate_legacy_update_root(false, record(), false), None);
    assert_eq!(migrate_legacy_update_root(false, Some("x".to_string()), true), None);
    assert!(matches!(
        copy_legacy_mod_tree("", "js", true, false),
        LegacyCopy::Descend(path) if path == "js"
    ));
    assert!(matches!(
        copy_legacy_mod_tree("js", "main.bundle.js", false, true),
        LegacyCopy::Copy(path) if path == "js/main.bundle.js"
    ));
    assert!(matches!(
        copy_legacy_mod_tree("", "update.json", false, true),
        LegacyCopy::Skip
    ));
}

#[test]
fn updates_are_applied_in_order() {
    let mut stage = ApplyStage::Stage;
    let mut seen = vec![stage];
    loop {
        match apply_update(stage, Ok(())) {
            ApplyAction::Enter(next) => {
                stage = next;
                seen.push(next);
            }
            ApplyAction::Done => break,
            ApplyAction::Fail(message) => panic!("{message}"),
        }
    }
    assert_eq!(
        seen,
        [
            ApplyStage::Stage,
            ApplyStage::Lock,
            ApplyStage::RemoveStale,
            ApplyStage::Copy,
            ApplyStage::RemoveStaging,
            ApplyStage::Record,
            ApplyStage::Unlock
        ]
    );
    assert!(matches!(
        apply_update(ApplyStage::Copy, Err("x".to_string())),
        ApplyAction::Fail(message) if message == "x"
    ));
}

#[test]
fn archive_messages_and_names() {
    assert_eq!(archive_fetch_error(ArchiveFetch::Request, "x"), "Mod 更新下載失敗：x");
    assert_eq!(archive_fetch_error(ArchiveFetch::Read, "x"), "讀取 Mod 更新失敗：x");
    assert_eq!(archive_fetch_error(ArchiveFetch::Save, "x"), "儲存 Mod 更新包失敗：x");
    assert_eq!(
        staging_dir(SHA, 12, 3),
        format!(".reversedfront-mod-staging-{SHA}-12-3")
    );
    assert_ne!(staging_dir(SHA, 1, 23), staging_dir(SHA, 12, 3));
    assert!(matches!(
        save_download_file(SaveStage::Write, Ok(true)),
        SaveAction::Enter(SaveStage::Remove)
    ));
    assert!(matches!(
        save_download_file(SaveStage::Remove, Err("x".to_string())),
        SaveAction::Fail { remove_partial: false, .. }
    ));
    assert!(matches!(
        save_download_file(SaveStage::Rename, Err("x".to_string())),
        SaveAction::Fail { remove_partial: true, .. }
    ));
}

#[test]
fn installed_updates_are_told() {
    let is_text = |value: &Json, key: &str, expected: &str| {
        matches!(value.get(key), Some(Json::Text(text)) if text == expected)
    };
    let is_true = |value: &Json, key: &str| matches!(value.get(key), Some(Json::Bool(true)));
    let told = archive_install_report(SHA, "mod.zip", "/downloads/mod.zip");
    assert!(is_true(&told, "updated"));
    assert!(is_text(&told, "remoteRef", SHA));
    assert!(is_text(&told, "filename", "mod.zip"));
    assert!(is_text(&told, "downloadPath", "/downloads/mod.zip"));
    assert!(is_text(&told, "source", "GitHub Release update.json"));
    assert!(is_true(&told, "restartRequired"));

    let paths = vec![
        "web/mod/js/main.bundle.js".to_string(),
        "web/mod/data/a.yaml".to_string(),
    ];
    let told = file_install_report(SHA, &paths);
    assert!(is_true(&told, "updated"));
    assert!(is_text(&told, "remoteRef", SHA));
    assert!(matches!(
        told.get("fileCount"),
        Some(Json::Number(JsonNumber::Unsigned(2)))
    ));
    assert!(is_true(&told, "restartRequired"));
    assert!(told.get("filename").is_none());
    assert_eq!(expected_paths(&paths), ["js/main.bundle.js", "data/a.yaml"]);
    assert!(expected_paths(&vec!["web/mod/../a".to_string()]).is_empty());
}
