use rf_desktop::path::Platform;
use rf_desktop::resource_manager::{
    fetch_and_cache, find_existing_case_insensitive, find_lowered, finish_wait, normalize_path,
    resource_url, temporary_extension, Existing, FetchAction, FetchEvent, FetchStage, Lookup,
    ResourceManager, Source, WaitStep, WAIT_ROUNDS,
};

fn key(platform: Platform, path: &str) -> Option<String> {
    normalize_path(platform, path).map(|local| local.key)
}

#[test]
fn requests_are_normalized() {
    let linux = Platform::Linux;
    let expected = Some("passionfruit/a.png".to_string());
    assert_eq!(key(linux, "passionfruit/a.png"), expected);
    assert_eq!(key(linux, "assets/passionfruit/a.png"), expected);
    assert_eq!(key(linux, "/passionfruit/a.png?v=1&w=?"), expected);
    assert_eq!(key(linux, "assets\\passionfruit\\a.png"), expected);
    assert_eq!(key(linux, "assets///passionfruit/a.png"), expected);
    assert_eq!(key(linux, "/assets/a.png"), Some("assets/a.png".to_string()));
    assert_eq!(key(linux, ""), Some(String::new()));
    assert_eq!(key(linux, "a/../b"), None);
    assert_eq!(key(linux, "a\\..\\b"), None);
    assert_eq!(key(linux, ".."), None);
    assert_eq!(key(linux, "a..b/c"), Some("a..b/c".to_string()));
}

#[test]
fn windows_drives_are_rejected() {
    let windows = Platform::Windows;
    assert_eq!(key(windows, "C:/a.png"), None);
    assert_eq!(key(windows, "/c:\\a.png"), None);
    assert_eq!(key(windows, "C:../a.png"), None);
    assert_eq!(key(Platform::Linux, "C:/a.png"), Some("C:/a.png".to_string()));
    let local = normalize_path(windows, "passionfruit/a/b.png").unwrap();
    assert_eq!(local.key, "passionfruit/a/b.png");
    assert_eq!(local.relative, "passionfruit\\a\\b.png");
}

#[test]
fn workers_follow_the_cpus() {
    for (cpus, workers) in [(1, 4), (2, 4), (3, 6), (8, 16), (16, 32), (17, 32), (usize::MAX, 32)] {
        assert_eq!(ResourceManager::with_cpu_count(cpus).max_workers(), workers);
    }
    let workers = ResourceManager::new().max_workers();
    assert!((4..=32).contains(&workers) && workers % 2 == 0);
    assert_eq!(
        ResourceManager::new().max_workers(),
        ResourceManager::with_cpu_count(num_cpus::get()).max_workers()
    );
}

#[test]
fn one_request_fetches_and_others_wait() {
    let mut manager = ResourceManager::with_cpu_count(2);
    assert!(manager.begin_fetch("k"));
    assert!(!manager.begin_fetch("k"));
    assert!(manager.begin_fetch("other"));
    let status = manager.get_status();
    assert_eq!(status.queue_length, 2);
    assert_eq!(status.active_downloads, 3);
    assert_eq!(status.max_workers, 4);
    assert_eq!(status.downloaded_count, 0);
    assert!(status.is_downloading);

    manager.finish_fetch("k", false);
    assert!(!manager.begin_fetch("k"));
    manager.finish_fetch("k", false);
    manager.note_fetched("k".to_string());
    manager.finish_fetch("k", true);
    manager.finish_fetch("other", true);
    let status = manager.get_status();
    assert_eq!(status.queue_length, 0);
    assert_eq!(status.active_downloads, 0);
    assert_eq!(status.downloaded_count, 1);
    assert!(!status.is_downloading);
    assert!(matches!(
        manager.exists_local(Platform::Linux, "k"),
        Lookup::Known(local) if local.key == "k"
    ));
    assert!(matches!(
        manager.exists_local(Platform::Linux, "other"),
        Lookup::Search(local) if local.key == "other"
    ));
    assert!(matches!(manager.exists_local(Platform::Linux, "../k"), Lookup::Rejected));
}

#[test]
fn found_resources_are_noted_once_they_are_read() {
    let mut manager = ResourceManager::with_cpu_count(2);
    let failed =
        manager.get_or_fetch(Source::Found, "k".to_string(), "p", Err("unreadable".to_string()));
    assert_eq!(failed.err().unwrap(), "unreadable");
    assert!(matches!(manager.exists_local(Platform::Linux, "k"), Lookup::Search(_)));
    let served = manager
        .get_or_fetch(Source::Found, "k".to_string(), "p", Ok(vec![1, 2]))
        .ok()
        .unwrap();
    assert_eq!(served.data, [1, 2]);
    assert_eq!(served.local_path, "k");
    assert_eq!(served.abs_path, "p");
    assert!(matches!(manager.exists_local(Platform::Linux, "k"), Lookup::Known(_)));
    assert!(manager
        .get_or_fetch(Source::Fetched, "f".to_string(), "p", Ok(Vec::new()))
        .is_ok());
    assert!(matches!(manager.exists_local(Platform::Linux, "f"), Lookup::Search(_)));
    manager.note_found("f".to_string());
    assert!(matches!(manager.exists_local(Platform::Linux, "f"), Lookup::Known(_)));
}

#[test]
fn waiting_ends() {
    let mut manager = ResourceManager::with_cpu_count(2);
    manager.begin_fetch("k");
    assert_eq!(manager.wait_for_fetch("k", 0, true), WaitStep::Read);
    assert_eq!(manager.wait_for_fetch("gone", 0, false), WaitStep::LastLook);
    let mut round = 0;
    let mut waits = 1;
    while let WaitStep::WaitAndLook(next) = manager.wait_for_fetch("k", round, false) {
        round = next;
        waits += 1;
    }
    assert_eq!(waits, WAIT_ROUNDS);
    assert_eq!(manager.wait_for_fetch("k", round, false), WaitStep::WaitAndLastLook);
    assert_eq!(finish_wait("k", true), Ok(()));
    assert_eq!(
        finish_wait("k", false),
        Err("concurrent resource download failed: k".to_string())
    );
}

#[test]
fn fetching_goes_through_a_temporary_file() {
    assert_eq!(
        resource_url("passionfruit/a/b.png"),
        "https://media.komisureiya.com/a/b.png"
    );
    assert_eq!(resource_url("a.png"), "https://media.komisureiya.com/a.png");
    assert_eq!(temporary_extension(12, 3), "download-12-3");
    assert_ne!(temporary_extension(1, 23), temporary_extension(12, 3));

    let mut stage = FetchStage::Request;
    let mut steps = 1;
    while let FetchAction::Enter(next) = fetch_and_cache(stage, FetchEvent::Done) {
        stage = next;
        steps += 1;
    }
    assert_eq!(steps, 5);
    assert!(matches!(
        fetch_and_cache(FetchStage::Rename, FetchEvent::Done),
        FetchAction::Serve
    ));
    match fetch_and_cache(
        FetchStage::Request,
        FetchEvent::Refused("404 Not Found".to_string()),
    ) {
        FetchAction::Fail { remove, message } => {
            assert!(!remove);
            assert_eq!(message, "upstream 404 Not Found");
        }
        _ => unreachable!(),
    }
    match fetch_and_cache(FetchStage::Store, FetchEvent::Failed("full".to_string())) {
        FetchAction::Fail { remove, message } => {
            assert!(!remove);
            assert_eq!(message, "full");
        }
        _ => unreachable!(),
    }
    let collision = |present| {
        fetch_and_cache(
            FetchStage::Rename,
            FetchEvent::NotRenamed { present, error: "denied".to_string() },
        )
    };
    assert!(matches!(collision(true), FetchAction::ServeExisting));
    assert!(matches!(collision(false), FetchAction::Fail { remove: true, .. }));
}

#[test]
fn files_are_found_whatever_their_case() {
    let entries = vec![
        None,
        Some("other.png".to_string()),
        Some("ÄPFEL.PNG".to_string()),
        Some("äpfel.png".to_string()),
    ];
    let find = |given, resolved, name| {
        find_existing_case_insensitive(given, resolved, &entries, name)
    };
    assert_eq!(find(true, true, None), Existing::AsGiven);
    assert_eq!(find(false, true, None), Existing::Resolved);
    assert_eq!(find(false, false, Some("Äpfel.png")), Existing::Entry(2));
    assert_eq!(find(false, false, Some("none.png")), Existing::Nowhere);
    assert_eq!(find(false, false, None), Existing::Nowhere);
    assert_eq!(find_lowered(&entries, "äpfel.png"), Existing::Entry(3));
}
