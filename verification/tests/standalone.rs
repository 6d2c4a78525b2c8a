use rf_desktop::locks::{IoFault, LockAttempt};
use rf_desktop::path::Platform;
use rf_desktop::process_slots::SlotProbe;
use rf_desktop::standalone::{
    acquire_update_lock, after_open_window, apply_standalone_update, cleanup_helper,
    deadline_passed, finish_install, install_downloaded_update, parse_standalone_update_args, restart_application,
    run_standalone_update_if_requested, standalone_update_command, wait_for_exclusive_lock,
    wait_for_parent_exit, wait_for_process_slots_exit, Argument, InstallCommand, InstallerRun,
    SlotWait, StageOutcome, StandaloneUpdateArgs, UpdateAction, UpdateStage, WaitStep,
};
use std::path::PathBuf;

fn arguments(texts: &[&str]) -> Vec<Argument<PathBuf>> {
    texts
        .iter()
        .map(|text| Argument { text: text.to_string(), path: PathBuf::from(text) })
        .collect()
}

#[test]
fn parses_standalone_update_arguments() {
    let args = arguments(&[
        "--wait-lock",
        "C:/Downloads/update.lock",
        "--update-lock",
        "C:/Users/test/AppData/Roaming/ReversedFront/.reversedfront-update.lock",
        "--process-lock-dir",
        "C:/Users/test/AppData/Roaming/ReversedFront/process-locks",
        "--installer",
        "C:/Downloads/ReversedFront_v3.2.6.exe",
        "--target-dir",
        "D:/ReversedFront",
        "--restart",
        "D:/ReversedFront/rf-desktop.exe",
    ]);

    let parsed = parse_standalone_update_args(args).ok().unwrap();
    assert_eq!(parsed.wait_lock, PathBuf::from("C:/Downloads/update.lock"));
    assert_eq!(
        parsed.update_lock,
        PathBuf::from("C:/Users/test/AppData/Roaming/ReversedFront/.reversedfront-update.lock")
    );
    assert_eq!(
        parsed.process_lock_dir,
        PathBuf::from("C:/Users/test/AppData/Roaming/ReversedFront/process-locks")
    );
    assert_eq!(
        parsed.installer,
        PathBuf::from("C:/Downloads/ReversedFront_v3.2.6.exe")
    );
    assert_eq!(parsed.target_dir, PathBuf::from("D:/ReversedFront"));
    assert_eq!(
        parsed.restart,
        PathBuf::from("D:/ReversedFront/rf-desktop.exe")
    );
}

#[test]
fn rejects_incomplete_standalone_update_arguments() {
    let args = arguments(&["--installer"]);
    let error = parse_standalone_update_args(args).err().unwrap();
    assert!(error.contains("更新參數缺少值"));
}

#[test]
fn reports_unknown_and_missing_arguments() {
    let error = |texts: &[&str]| parse_standalone_update_args(arguments(texts)).err().unwrap();
    assert_eq!(error(&["--installer"]), "更新參數缺少值：--installer");
    assert_eq!(error(&["--other", "x"]), "未知的更新參數：--other");
    assert_eq!(error(&[]), "缺少更新等待鎖檔");
    assert_eq!(error(&["--wait-lock", "a"]), "缺少全域更新鎖檔");
    assert_eq!(
        error(&["--wait-lock", "a", "--update-lock", "b"]),
        "缺少程序槽位鎖目錄"
    );
    assert_eq!(
        error(&["--wait-lock", "a", "--update-lock", "b", "--process-lock-dir", "c"]),
        "缺少更新安裝檔"
    );
}

#[test]
fn update_command_is_read_back() {
    let given = StandaloneUpdateArgs {
        wait_lock: "a".to_string(),
        update_lock: "b".to_string(),
        process_lock_dir: "c".to_string(),
        installer: "--restart".to_string(),
        target_dir: "e".to_string(),
        restart: "f".to_string(),
    };
    let mut line = Vec::new();
    for (flag, path) in standalone_update_command(given) {
        line.push(Argument { text: flag.to_string(), path: flag.to_string() });
        line.push(Argument { text: path.clone(), path });
    }
    let parsed = parse_standalone_update_args(line).ok().unwrap();
    assert_eq!(parsed.wait_lock, "a");
    assert_eq!(parsed.update_lock, "b");
    assert_eq!(parsed.process_lock_dir, "c");
    assert_eq!(parsed.installer, "--restart");
    assert_eq!(parsed.target_dir, "e");
    assert_eq!(parsed.restart, "f");
}

#[test]
fn update_mode_is_asked_for_by_the_first_argument() {
    assert!(run_standalone_update_if_requested(Some("--rf-apply-update")));
    assert!(!run_standalone_update_if_requested(Some("--installer")));
    assert!(!run_standalone_update_if_requested(None));
}

fn fault(would_block: bool, os_code: Option<i32>) -> IoFault {
    IoFault { would_block, not_found: false, address_in_use: false, os_code, message: "refused".to_string() }
}

fn failed(step: WaitStep) -> String {
    match step {
        WaitStep::Fail(message) => message,
        _ => panic!("the wait goes on"),
    }
}

#[test]
fn waits_retry_until_the_deadline() {
    let linux = Platform::Linux;
    let held = || LockAttempt::LockFailed(fault(true, None));
    assert!(matches!(
        wait_for_parent_exit(LockAttempt::Acquired, false, linux),
        WaitStep::Ready
    ));
    assert!(matches!(wait_for_parent_exit(held(), false, linux), WaitStep::Retry));
    assert_eq!(
        failed(wait_for_parent_exit(held(), true, linux)),
        "等待 ReversedFront 關閉逾時"
    );
    assert_eq!(
        failed(wait_for_parent_exit(LockAttempt::LockFailed(fault(false, Some(33))), false, linux)),
        "無法取得更新等待鎖：refused"
    );
    assert!(matches!(
        wait_for_parent_exit(
            LockAttempt::OpenFailed(fault(false, Some(32))),
            false,
            Platform::Windows
        ),
        WaitStep::Retry
    ));
    assert_eq!(
        failed(wait_for_exclusive_lock(held(), true, linux)),
        "等待全域更新鎖逾時"
    );
    assert_eq!(
        failed(wait_for_exclusive_lock(LockAttempt::OpenFailed(fault(true, None)), false, linux)),
        "無法開啟全域更新鎖：refused"
    );
    assert_eq!(failed(after_open_window(true)), "等待所有 ReversedFront 視窗關閉逾時");
    assert!(matches!(after_open_window(false), WaitStep::Retry));
}

#[test]
fn waits_last_five_minutes() {
    assert!(!deadline_passed(0));
    assert!(!deadline_passed(299_999));
    assert!(deadline_passed(300_000));
}

#[test]
fn update_lock_is_taken_once() {
    assert_eq!(acquire_update_lock(LockAttempt::Acquired, Platform::Linux), Ok(()));
    assert_eq!(
        acquire_update_lock(LockAttempt::LockFailed(fault(true, None)), Platform::Linux),
        Err("另一個 ReversedFront 視窗正在更新".to_string())
    );
    assert_eq!(
        acquire_update_lock(LockAttempt::LockFailed(fault(false, None)), Platform::Linux),
        Err("無法取得全域更新鎖：refused".to_string())
    );
}

#[test]
fn every_slot_is_waited_for() {
    let mut slot = 0;
    let mut looked = 1;
    loop {
        match wait_for_process_slots_exit(slot, SlotProbe::Missing, Platform::Linux) {
            SlotWait::Probe(next) => {
                assert_eq!(next, slot + 1);
                slot = next;
                looked += 1;
            }
            SlotWait::Ready => break,
            _ => unreachable!(),
        }
    }
    assert_eq!(looked, 64);
    assert!(matches!(
        wait_for_process_slots_exit(
            5,
            SlotProbe::LockFailed(fault(true, None)),
            Platform::Linux
        ),
        SlotWait::Open
    ));
    match wait_for_process_slots_exit(
        5,
        SlotProbe::OpenFailed(fault(false, None)),
        Platform::Linux,
    ) {
        SlotWait::Fail(message) => assert_eq!(message, "無法檢查程序槽位 5：refused"),
        _ => unreachable!(),
    }
}

#[test]
fn failures_behind_the_first_wait_bring_the_program_back() {
    match apply_standalone_update(
        UpdateStage::AwaitParent,
        StageOutcome::Failed("x".to_string()),
    ) {
        UpdateAction::GiveUp { recover, error } => {
            assert!(!recover);
            assert_eq!(error, "x");
        }
        _ => unreachable!(),
    }
    match apply_standalone_update(UpdateStage::Install, StageOutcome::Failed("y".to_string())) {
        UpdateAction::GiveUp { recover, .. } => assert!(recover),
        _ => unreachable!(),
    }
    assert!(matches!(
        apply_standalone_update(UpdateStage::Install, StageOutcome::Done(true)),
        UpdateAction::Finish { restart: true }
    ));
    assert!(matches!(
        apply_standalone_update(UpdateStage::AwaitLock, StageOutcome::Done(false)),
        UpdateAction::Enter(UpdateStage::AwaitWindows)
    ));
    assert!(cleanup_helper(Some(false)));
    assert!(!cleanup_helper(Some(true)));
    assert!(!cleanup_helper(None));
    assert_eq!(restart_application(Ok(())), Ok(()));
    assert_eq!(
        restart_application(Err("z".to_string())),
        Err("更新後無法重新啟動 ReversedFront：z".to_string())
    );
}

#[test]
fn installers_are_started_as_the_platform_does() {
    let start = |extension, platform| {
        install_downloaded_update(true, "i", extension, "D:/RF", platform).ok().unwrap()
    };
    match start(Some("MSI"), Platform::Windows) {
        InstallCommand::Msiexec(argument) => assert_eq!(argument, "INSTALLDIR=D:/RF"),
        _ => unreachable!(),
    }
    match start(Some("exe"), Platform::Windows) {
        InstallCommand::Installer(argument) => assert_eq!(argument, "/D=D:/RF"),
        _ => unreachable!(),
    }
    assert!(matches!(start(Some("dmg"), Platform::MacOs), InstallCommand::Open("open")));
    assert!(matches!(start(None, Platform::Linux), InstallCommand::Open("xdg-open")));
    assert_eq!(
        install_downloaded_update(false, "i", None, "t", Platform::Linux).err().unwrap(),
        "找不到更新安裝檔：i"
    );
}

#[test]
fn installer_outcomes() {
    let installer = InstallCommand::Installer("/D=x".to_string());
    let open = InstallCommand::Open("open");
    assert!(matches!(
        finish_install(&installer, InstallerRun::Ended(true, String::new()), Platform::Windows),
        StageOutcome::Done(true)
    ));
    match finish_install(
        &installer,
        InstallerRun::Ended(false, "exit code: 2".to_string()),
        Platform::Windows,
    ) {
        StageOutcome::Failed(message) => assert_eq!(message, "Windows 更新程式結束碼：exit code: 2"),
        _ => unreachable!(),
    }
    assert!(matches!(
        finish_install(&open, InstallerRun::Ended(false, String::new()), Platform::MacOs),
        StageOutcome::Done(false)
    ));
    match finish_install(&open, InstallerRun::Unstarted("x".to_string()), Platform::MacOs) {
        StageOutcome::Failed(message) => assert_eq!(message, "無法開啟 macOS 更新程式：x"),
        _ => unreachable!(),
    }
}

#[test]
fn option_order_does_not_matter() {
    let forward = [
        "--wait-lock", "a", "--update-lock", "b", "--process-lock-dir", "c", "--installer", "d",
        "--target-dir", "e", "--restart", "f",
    ];
    let mut backward = Vec::new();
    for pair in forward.chunks(2).rev() {
        backward.extend_from_slice(pair);
    }
    let parsed = parse_standalone_update_args(arguments(&backward)).ok().unwrap();
    assert_eq!(parsed.wait_lock, PathBuf::from("a"));
    assert_eq!(parsed.update_lock, PathBuf::from("b"));
    assert_eq!(parsed.process_lock_dir, PathBuf::from("c"));
    assert_eq!(parsed.installer, PathBuf::from("d"));
    assert_eq!(parsed.target_dir, PathBuf::from("e"));
    assert_eq!(parsed.restart, PathBuf::from("f"));
}
