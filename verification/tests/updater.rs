use rf_desktop::path::Platform;
use rf_desktop::updater::{
    begin_download, check_update, check_update_from_api, check_update_from_manifest,
    cleanup_old_installers, download_and_install, download_dir, extract_version,
    finish_update_check, helper_name, is_newer, needs_permission, parent_lock_name,
    partial_file_name, release_asset_priority, removes_helper, save_download_file, select_release_asset,
    validate_download_request, DirectoryFault, DownloadAction, DownloadEvent, DownloadStage,
    GithubRelease, GithubReleaseAsset, Reply, SaveAction, SaveStage, UpdateCheck,
    GITHUB_RELEASE_DOWNLOAD_PREFIX,
};

#[test]
fn extracts_semantic_versions() {
    assert_eq!(extract_version("v3.1.2"), Some("3.1.2".to_string()));
    assert_eq!(
        extract_version("ReversedFront_v10.20.30.exe"),
        Some("10.20.30".to_string())
    );
    assert_eq!(extract_version("latest"), None);
}

#[test]
fn compares_versions_by_component() {
    assert!(is_newer("3.2.0", "3.1.9"));
    assert!(is_newer("3.1.1", "3.1"));
    assert!(!is_newer("3.1.0", "3.1"));
    assert!(!is_newer("2.9.9", "3.0.0"));
}

#[test]
fn extracts_the_first_and_longest_version() {
    assert_eq!(extract_version("v1 v2.3 v4.5.6"), Some("2.3".to_string()));
    assert_eq!(extract_version("vv1.2.x"), Some("1.2".to_string()));
    assert_eq!(extract_version("v1."), None);
    assert_eq!(extract_version("3.1.2"), None);
}

#[test]
fn version_order_is_strict_and_ignores_trailing_zeros() {
    assert!(!is_newer("3.1.2", "3.1.2"));
    assert!(!is_newer("3.1.2.0", "3.1.2"));
    assert!(!is_newer("3.1.2", "3.1.2.0"));
    for version in ["3.1", " v3.1 ", "3. ", "3.1-beta"] {
        let longer = format!("{version}.0");
        for other in ["3", "3.0.1", "3.1", "3.1.0.1", "4"] {
            assert_eq!(is_newer(&longer, other), is_newer(version, other));
            assert_eq!(is_newer(other, &longer), is_newer(other, version));
        }
    }
    assert!(is_newer("v10.0", "9.9"));
    assert!(!is_newer("9.9", "v10.0"));
    assert!(is_newer(" v1.2-beta ", "1.1"));
    assert!(!is_newer("", "1.0"));
    assert!(!is_newer("1.0", "x"));
    assert!(is_newer("1.99999999999.3", "1.2"));
    assert!(!is_newer("1.99999999999.3", "1.4"));
}

fn asset(name: &str) -> GithubReleaseAsset {
    GithubReleaseAsset {
        name: name.to_string(),
        browser_download_url: format!("https://example.com/{name}"),
    }
}

fn release(tag: &str, names: &[&str]) -> GithubRelease {
    GithubRelease {
        tag_name: tag.to_string(),
        assets: names.iter().map(|name| asset(name)).collect(),
    }
}

#[test]
fn asset_priority_depends_on_platform() {
    assert_eq!(release_asset_priority("ReversedFront_v1.exe", Platform::Windows), Some(0));
    assert_eq!(release_asset_priority("ReversedFront_v1.MSI", Platform::Windows), Some(1));
    assert_eq!(release_asset_priority("ReversedFront_v1.dmg", Platform::MacOs), Some(0));
    assert_eq!(release_asset_priority("ReversedFront_v1.app.tar.gz", Platform::MacOs), Some(1));
    assert_eq!(release_asset_priority("reversedfront_v1.AppImage", Platform::Linux), Some(0));
    assert_eq!(release_asset_priority("ReversedFront_v1.deb", Platform::Linux), Some(1));
    assert_eq!(release_asset_priority("ReversedFront_v1.exe", Platform::Linux), None);
    assert_eq!(release_asset_priority("Other_v1.exe", Platform::Windows), None);
    assert_eq!(release_asset_priority("ReversedFront_v1.exe", Platform::Other), None);
}

#[test]
fn best_asset_is_the_first_of_the_best_priority() {
    let offered = release(
        "v1.0",
        &["ReversedFront_a.msi", "ReversedFront_b.exe", "ReversedFront_c.exe"],
    );
    let chosen = select_release_asset(&offered, Platform::Windows).unwrap();
    assert_eq!(chosen.name, "ReversedFront_b.exe");
    assert!(select_release_asset(&offered, Platform::Linux).is_none());
}

#[test]
fn api_replies_become_offers_or_errors() {
    let info = check_update_from_api(
        Reply::Document(release("v3.2.0", &["ReversedFront_v3.2.0.deb"])),
        "3.1.9",
        Platform::Linux,
        "linux",
    )
    .ok()
    .unwrap();
    assert_eq!(info.version, "3.2.0");
    assert_eq!(info.filename, "ReversedFront_v3.2.0.deb");
    assert_eq!(info.download_url, "https://example.com/ReversedFront_v3.2.0.deb");
    assert!(info.has_update);

    let error = |reply| check_update_from_api(reply, "1.0", Platform::Linux, "linux").err().unwrap();
    assert_eq!(error(Reply::Unsent("x".to_string())), "GitHub release check failed: x");
    assert_eq!(
        error(Reply::Refused("403 Forbidden".to_string())),
        "GitHub release API returned 403 Forbidden"
    );
    assert_eq!(
        error(Reply::Malformed("y".to_string())),
        "Invalid GitHub release response: y"
    );
    assert_eq!(
        error(Reply::Document(release("latest", &[]))),
        "Invalid GitHub release tag: latest"
    );
    assert_eq!(
        error(Reply::Document(release("v1.2", &["ReversedFront_v1.2.exe"]))),
        "No supported linux release asset found in MoLinOwO/ReversedFront_Public"
    );
}

#[test]
fn manifest_replies_become_offers_or_errors() {
    let info = check_update_from_manifest(
        Reply::Document(release("v3.1", &["ReversedFront_v3.1.dmg"])),
        "3.1.0",
        Platform::MacOs,
        "macos",
    )
    .ok()
    .unwrap();
    assert!(!info.has_update);

    let error =
        |reply| check_update_from_manifest(reply, "1.0", Platform::MacOs, "macos").err().unwrap();
    assert_eq!(error(Reply::Unsent("x".to_string())), "靜態更新描述檔請求失敗：x");
    assert_eq!(error(Reply::Refused("404".to_string())), "靜態更新描述檔回傳 404");
    assert_eq!(error(Reply::Malformed("y".to_string())), "靜態更新描述檔格式錯誤：y");
    assert_eq!(
        error(Reply::Document(release("z", &[]))),
        "靜態更新描述檔版本標籤錯誤：z"
    );
    assert_eq!(
        error(Reply::Document(release("v1.2", &[]))),
        "靜態更新描述檔沒有支援 macos 的安裝檔"
    );
}

#[test]
fn manifest_is_asked_only_after_the_api_failed() {
    assert!(matches!(check_update(Ok(1)), UpdateCheck::Done(1)));
    match check_update::<u8>(Err("a".to_string())) {
        UpdateCheck::AskManifest(error) => assert_eq!(error, "a"),
        _ => unreachable!(),
    }
    assert_eq!(finish_update_check("a", Ok(2)), Ok(2));
    assert_eq!(
        finish_update_check::<u8>("a", Err("b".to_string())),
        Err("GitHub API 更新檢查失敗：a；靜態描述檔 fallback 也失敗：b".to_string())
    );
}

#[test]
fn download_requests_are_validated() {
    let url = format!("{GITHUB_RELEASE_DOWNLOAD_PREFIX}v1.2/ReversedFront_v1.2.exe");
    let check = |url: &str, name: &str| validate_download_request(url, name, Platform::Windows);
    assert_eq!(check(&url, "ReversedFront_v1.2.exe"), Ok(()));
    assert_eq!(
        check("https://example.com/ReversedFront_v1.2.exe", "ReversedFront_v1.2.exe"),
        Err("拒絕非 GitHub Releases 的更新下載網址".to_string())
    );
    assert_eq!(
        check(&url, "../ReversedFront_v1.2.exe"),
        Err("更新檔名無效".to_string())
    );
    assert_eq!(
        check(&url, "x\\ReversedFront_v1.2.exe"),
        Err("更新檔名無效".to_string())
    );
    let unsupported = Err("GitHub Releases 沒有支援目前平台的更新檔".to_string());
    assert_eq!(check(&url, "ReversedFront_v1.2.deb"), unsupported);
    assert_eq!(check(&url, "ReversedFront_1.2.exe"), unsupported);
}

#[test]
fn old_installers_are_recognized() {
    assert!(cleanup_old_installers("ReversedFront_v3.1.0.exe", false));
    assert!(cleanup_old_installers("ReversedFront_v3.1.0.AppImage", false));
    assert!(cleanup_old_installers("ReversedFront_v3.1.0.app.tar.gz", false));
    assert!(!cleanup_old_installers("ReversedFront_v3.1.0.exe", true));
    assert!(!cleanup_old_installers("reversedfront_v3.1.0.exe", false));
    assert!(!cleanup_old_installers("ReversedFront_v3.1.0.zip", false));
}

fn entered(action: DownloadAction) -> DownloadStage {
    match action {
        DownloadAction::Enter(stage) => stage,
        DownloadAction::Exit => panic!("the program ends"),
        DownloadAction::Fail(message) => panic!("{message}"),
    }
}

fn failure(action: DownloadAction) -> String {
    match action {
        DownloadAction::Fail(message) => message,
        _ => panic!("the download goes on"),
    }
}

#[test]
fn download_runs_through_every_stage() {
    let url = format!("{GITHUB_RELEASE_DOWNLOAD_PREFIX}v1.2/ReversedFront_v1.2.AppImage");
    let mut action = begin_download(&url, "ReversedFront_v1.2.AppImage", Platform::Linux);
    let mut stages = 0;
    while let DownloadAction::Enter(stage) = action {
        stages += 1;
        let event = match stage {
            DownloadStage::FirstCheck | DownloadStage::SecondCheck => DownloadEvent::Others(false),
            _ => DownloadEvent::Done,
        };
        action = download_and_install(stage, event, true);
    }
    assert!(matches!(action, DownloadAction::Exit));
    assert_eq!(stages, 16);
    assert_eq!(
        entered(download_and_install(DownloadStage::Save, DownloadEvent::Done, false)),
        DownloadStage::SecondCheck
    );
    assert_eq!(
        failure(begin_download("x", "ReversedFront_v1.2.AppImage", Platform::Linux)),
        "拒絕非 GitHub Releases 的更新下載網址"
    );
}

#[test]
fn other_windows_and_errors_stop_the_download() {
    assert_eq!(
        failure(download_and_install(
            DownloadStage::FirstCheck,
            DownloadEvent::Others(true),
            false
        )),
        "偵測到其他 ReversedFront 視窗，請先關閉其他視窗後再更新"
    );
    assert_eq!(
        failure(download_and_install(
            DownloadStage::SecondCheck,
            DownloadEvent::Others(true),
            false
        )),
        "下載完成，但偵測到其他 ReversedFront 視窗，請關閉其他視窗後再重新更新"
    );
    assert_eq!(
        failure(download_and_install(
            DownloadStage::CopyHelper,
            DownloadEvent::Failed("x".to_string()),
            false
        )),
        "無法建立獨立更新程序：x"
    );
}

#[test]
fn unstarted_helpers_are_removed() {
    let failed = || DownloadEvent::Failed("x".to_string());
    assert!(removes_helper(DownloadStage::Start, &failed()));
    assert!(!removes_helper(DownloadStage::CopyHelper, &failed()));
    assert!(!removes_helper(DownloadStage::Start, &DownloadEvent::Done));
}

#[test]
fn versions_are_found_among_other_scripts() {
    assert_eq!(extract_version("版本 v3.2.6 版"), Some("3.2.6".to_string()));
    assert_eq!(extract_version("v1.2版"), Some("1.2".to_string()));
    assert_eq!(extract_version("v1.2.版"), Some("1.2".to_string()));
    assert_eq!(extract_version("逆統戰v1"), None);
    assert_eq!(extract_version("v\u{661}.\u{662} v1.2"), Some("\u{661}.\u{662}".to_string()));
    assert_eq!(extract_version("v1.2\u{663}"), Some("1.2\u{663}".to_string()));
}

#[test]
fn file_names_of_an_update() {
    assert_eq!(partial_file_name("a.exe", 12), ".a.exe.part-12");
    assert_eq!(parent_lock_name(0), ".reversedfront-update-parent-0.lock");
    assert_eq!(helper_name(7, Some("exe")), ".reversedfront-updater-7.exe");
    assert_eq!(helper_name(70, None), ".reversedfront-updater-70");
    assert!(needs_permission(Platform::Linux, Some("AppImage")));
    assert!(!needs_permission(Platform::Linux, Some("deb")));
}

#[test]
fn keeping_a_download_replaces_an_earlier_one() {
    let next = |stage, outcome| save_download_file(stage, outcome, "p", "d");
    assert!(matches!(
        next(SaveStage::Write, Ok(true)),
        SaveAction::Enter(SaveStage::Remove)
    ));
    assert!(matches!(
        next(SaveStage::Write, Ok(false)),
        SaveAction::Enter(SaveStage::Rename)
    ));
    assert!(matches!(next(SaveStage::Rename, Ok(false)), SaveAction::Done));
    match next(SaveStage::Remove, Err("x".to_string())) {
        SaveAction::Fail { remove_partial, message } => {
            assert!(remove_partial);
            assert_eq!(message, "無法覆蓋下載檔 d：x");
        }
        _ => unreachable!(),
    }
    match next(SaveStage::Write, Err("x".to_string())) {
        SaveAction::Fail { remove_partial, message } => {
            assert!(!remove_partial);
            assert_eq!(message, "無法儲存更新檔 p：x");
        }
        _ => unreachable!(),
    }
}

#[test]
fn missing_download_directories_are_told() {
    assert_eq!(
        download_dir(DirectoryFault::Unknown("x".to_string())),
        "無法取得系統下載目錄：x"
    );
    assert_eq!(
        download_dir(DirectoryFault::NotCreated {
            directory: "/d".to_string(),
            error: "y".to_string()
        }),
        "無法建立系統下載目錄 /d：y"
    );
}
