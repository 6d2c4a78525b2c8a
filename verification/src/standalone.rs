//! The update mode of the program: a copy of it waits until every window is
//! closed, installs the download and starts the program again.

use crate::locks::{busy, lock_is_busy, IoFault, LockAttempt};
use crate::path::Platform;
use crate::process_slots::{SlotProbe, MAX_PROCESS_SLOTS};
use crate::text::{
    ascii_lowercase, decimal, decimal_text, joined, lemma_framed, same_text, to_ascii_lowercase,
};
use vstd::prelude::*;

verus! {

/// The first argument of a process in update mode.
pub const STANDALONE_UPDATE_FLAG: &'static str = "--rf-apply-update";

pub const UPDATE_WAIT_LOCK_ARG: &'static str = "--wait-lock";

pub const UPDATE_GLOBAL_LOCK_ARG: &'static str = "--update-lock";

pub const UPDATE_PROCESS_LOCK_DIR_ARG: &'static str = "--process-lock-dir";

pub const UPDATE_INSTALLER_ARG: &'static str = "--installer";

pub const UPDATE_TARGET_DIR_ARG: &'static str = "--target-dir";

pub const UPDATE_RESTART_ARG: &'static str = "--restart";

/// How long the update mode waits for each lock and for every window, in
/// milliseconds.
pub const UPDATE_WAIT_TIMEOUT_MILLISECONDS: u128 = 300000;

/// How long it pauses between two attempts, in milliseconds.
pub const UPDATE_WAIT_INTERVAL_MILLISECONDS: u64 = 150;

/// Whether the time to wait is over, given how long the wait has lasted.
pub fn deadline_passed(elapsed_milliseconds: u128) -> (r: bool)
    ensures
        r == (elapsed_milliseconds >= UPDATE_WAIT_TIMEOUT_MILLISECONDS),
{
    elapsed_milliseconds >= UPDATE_WAIT_TIMEOUT_MILLISECONDS
}

/// An argument of the command line: its text, as far as it can be read, and
/// the path that it denotes.
pub struct Argument<P> {
    pub text: String,
    pub path: P,
}

/// The paths that the update mode works with.
pub struct StandaloneUpdateArgs<P> {
    pub wait_lock: P,
    pub update_lock: P,
    pub process_lock_dir: P,
    pub installer: P,
    pub target_dir: P,
    pub restart: P,
}

/// The paths that have been given so far.
pub struct GivenPaths<P> {
    pub wait_lock: Option<P>,
    pub update_lock: Option<P>,
    pub process_lock_dir: Option<P>,
    pub installer: Option<P>,
    pub target_dir: Option<P>,
    pub restart: Option<P>,
}

pub open spec fn nothing_given<P>() -> GivenPaths<P> {
    GivenPaths {
        wait_lock: None,
        update_lock: None,
        process_lock_dir: None,
        installer: None,
        target_dir: None,
        restart: None,
    }
}

/// `given` with the path of the option `flag`; none for an unknown option.
pub open spec fn with_option<P>(given: GivenPaths<P>, flag: Seq<char>, path: P) -> Option<
    GivenPaths<P>,
> {
    if flag == UPDATE_WAIT_LOCK_ARG@ {
        Some(GivenPaths { wait_lock: Some(path), ..given })
    } else if flag == UPDATE_GLOBAL_LOCK_ARG@ {
        Some(GivenPaths { update_lock: Some(path), ..given })
    } else if flag == UPDATE_PROCESS_LOCK_DIR_ARG@ {
        Some(GivenPaths { process_lock_dir: Some(path), ..given })
    } else if flag == UPDATE_INSTALLER_ARG@ {
        Some(GivenPaths { installer: Some(path), ..given })
    } else if flag == UPDATE_TARGET_DIR_ARG@ {
        Some(GivenPaths { target_dir: Some(path), ..given })
    } else if flag == UPDATE_RESTART_ARG@ {
        Some(GivenPaths { restart: Some(path), ..given })
    } else {
        None
    }
}

/// What the options in `args`, each followed by its path, give; or the message
/// about the first one that is unknown or has no path.
pub open spec fn options_given<P>(args: Seq<Argument<P>>) -> Result<GivenPaths<P>, Seq<char>>
    decreases args.len(),
{
    if args.len() == 0 {
        Ok(nothing_given())
    } else if args.len() % 2 == 1 {
        match options_given(args.drop_last()) {
            Ok(_) => Err("更新參數缺少值："@ + args.last().text@),
            Err(e) => Err(e),
        }
    } else {
        match options_given(args.take(args.len() - 2)) {
            Ok(given) => match with_option(
                given,
                args[args.len() - 2].text@,
                args.last().path,
            ) {
                Some(more) => Ok(more),
                None => Err("未知的更新參數："@ + args[args.len() - 2].text@),
            },
            Err(e) => Err(e),
        }
    }
}

/// The message about the first path that is missing.
pub open spec fn missing_path<P>(given: GivenPaths<P>) -> Option<Seq<char>> {
    if given.wait_lock is None {
        Some("缺少更新等待鎖檔"@)
    } else if given.update_lock is None {
        Some("缺少全域更新鎖檔"@)
    } else if given.process_lock_dir is None {
        Some("缺少程序槽位鎖目錄"@)
    } else if given.installer is None {
        Some("缺少更新安裝檔"@)
    } else if given.target_dir is None {
        Some("缺少更新目標目錄"@)
    } else if given.restart is None {
        Some("缺少更新重啟路徑"@)
    } else {
        None
    }
}

/// The given paths as a whole.
pub open spec fn all_given<P>(args: StandaloneUpdateArgs<P>) -> GivenPaths<P> {
    GivenPaths {
        wait_lock: Some(args.wait_lock),
        update_lock: Some(args.update_lock),
        process_lock_dir: Some(args.process_lock_dir),
        installer: Some(args.installer),
        target_dir: Some(args.target_dir),
        restart: Some(args.restart),
    }
}

/// Reads the arguments behind the update flag. Every option takes a path, the
/// last one given counts, and none may be missing.
pub fn parse_standalone_update_args<P>(args: Vec<Argument<P>>) -> (r: Result<
    StandaloneUpdateArgs<P>,
    String,
>)
    ensures
        match options_given(args@) {
            Err(why) => r matches Err(e) && e@ == why,
            Ok(given) => match missing_path(given) {
                Some(why) => r matches Err(e) && e@ == why,
                None => r matches Ok(paths) && given == all_given(paths),
            },
        },
{
    let ghost all = args@;
    let mut rest = args;
    let mut given: GivenPaths<P> = GivenPaths {
        wait_lock: None,
        update_lock: None,
        process_lock_dir: None,
        installer: None,
        target_dir: None,
        restart: None,
    };
    let ghost mut read: int = 0;
    proof {
        assert(all.take(0) =~= Seq::empty());
        assert(all.skip(0) =~= all);
    }
    while rest.len() > 0
        invariant
            0 <= read <= all.len(),
            read % 2 == 0,
            all == args@,
            rest@ == all.skip(read),
            options_given(all.take(read)) == Ok::<_, Seq<char>>(given),
        decreases rest.len(),
    {
        let argument = rest.remove(0);
        proof {
            assert(all.take(read + 1).drop_last() =~= all.take(read));
            assert(all.take(read + 1).last() == argument);
        }
        if rest.len() == 0 {
            assert(all.take(read + 1) =~= all);
            return Err(joined("更新參數缺少值：", &argument.text));
        }
        let value = rest.remove(0);
        proof {
            let upto = all.take(read + 2);
            assert(upto.take(upto.len() - 2) =~= all.take(read));
            assert(upto[read] == argument && upto.last() == value);
            lemma_error_stays(upto, all);
        }
        if same_text(&argument.text, UPDATE_WAIT_LOCK_ARG) {
            given.wait_lock = Some(value.path);
        } else if same_text(&argument.text, UPDATE_GLOBAL_LOCK_ARG) {
            given.update_lock = Some(value.path);
        } else if same_text(&argument.text, UPDATE_PROCESS_LOCK_DIR_ARG) {
            given.process_lock_dir = Some(value.path);
        } else if same_text(&argument.text, UPDATE_INSTALLER_ARG) {
            given.installer = Some(value.path);
        } else if same_text(&argument.text, UPDATE_TARGET_DIR_ARG) {
            given.target_dir = Some(value.path);
        } else if same_text(&argument.text, UPDATE_RESTART_ARG) {
            given.restart = Some(value.path);
        } else {
            return Err(joined("未知的更新參數：", &argument.text));
        }
        proof {
            read = read + 2;
        }
    }
    assert(all.take(read) =~= all);
    match given.wait_lock {
        None => Err("缺少更新等待鎖檔".to_owned()),
        Some(wait_lock) => match given.update_lock {
            None => Err("缺少全域更新鎖檔".to_owned()),
            Some(update_lock) => match given.process_lock_dir {
                None => Err("缺少程序槽位鎖目錄".to_owned()),
                Some(process_lock_dir) => match given.installer {
                    None => Err("缺少更新安裝檔".to_owned()),
                    Some(installer) => match given.target_dir {
                        None => Err("缺少更新目標目錄".to_owned()),
                        Some(target_dir) => match given.restart {
                            None => Err("缺少更新重啟路徑".to_owned()),
                            Some(restart) => Ok(
                                StandaloneUpdateArgs {
                                    wait_lock,
                                    update_lock,
                                    process_lock_dir,
                                    installer,
                                    target_dir,
                                    restart,
                                },
                            ),
                        },
                    },
                },
            },
        },
    }
}

/// An error in the beginning of the arguments is the error of all of them,
/// where the beginning consists of whole options.
proof fn lemma_error_stays<P>(start: Seq<Argument<P>>, all: Seq<Argument<P>>)
    requires
        start.len() <= all.len(),
        start == all.take(start.len() as int),
        start.len() % 2 == 0,
    ensures
        options_given(start) matches Err(e) ==> options_given(all) == Err::<GivenPaths<P>, _>(e),
    decreases all.len() - start.len(),
{
    if start.len() == all.len() {
        assert(start =~= all);
    } else if all.len() % 2 == 1 {
        assert(all.drop_last().take(start.len() as int) =~= start);
        lemma_error_stays(start, all.drop_last());
    } else {
        assert(all.take(all.len() - 2).take(start.len() as int) =~= start);
        lemma_error_stays(start, all.take(all.len() - 2));
    }
}

/// The options and their paths, as the update mode is started with them behind
/// its flag.
pub open spec fn command_options<P>(args: StandaloneUpdateArgs<P>) -> Seq<(Seq<char>, P)> {
    seq![
        (UPDATE_WAIT_LOCK_ARG@, args.wait_lock),
        (UPDATE_GLOBAL_LOCK_ARG@, args.update_lock),
        (UPDATE_PROCESS_LOCK_DIR_ARG@, args.process_lock_dir),
        (UPDATE_INSTALLER_ARG@, args.installer),
        (UPDATE_TARGET_DIR_ARG@, args.target_dir),
        (UPDATE_RESTART_ARG@, args.restart),
    ]
}

/// The options and their paths, as the update mode is started with them behind
/// its flag.
pub fn standalone_update_command<P>(args: StandaloneUpdateArgs<P>) -> (r: Vec<(&'static str, P)>)
    ensures
        r@.map_values(|option: (&'static str, P)| (option.0@, option.1)) == command_options(args),
{
    let options = vec![
        (UPDATE_WAIT_LOCK_ARG, args.wait_lock),
        (UPDATE_GLOBAL_LOCK_ARG, args.update_lock),
        (UPDATE_PROCESS_LOCK_DIR_ARG, args.process_lock_dir),
        (UPDATE_INSTALLER_ARG, args.installer),
        (UPDATE_TARGET_DIR_ARG, args.target_dir),
        (UPDATE_RESTART_ARG, args.restart),
    ];
    assert(options@.map_values(|option: (&'static str, P)| (option.0@, option.1))
        =~= command_options(args));
    options
}

/// `line` is the command line made of the given options: each option's text,
/// and behind it the path.
pub open spec fn spells<P>(line: Seq<Argument<P>>, options: Seq<(Seq<char>, P)>) -> bool {
    &&& line.len() == 2 * options.len()
    &&& forall|i: int|
        0 <= i < options.len() ==> line[2 * i].text@ == (#[trigger] options[i]).0 && line[2 * i
            + 1].path == options[i].1
}

/// Reading the command line that the update mode is started with gives back the
/// paths it was made of.
pub proof fn law_update_command_is_read_back<P>(
    args: StandaloneUpdateArgs<P>,
    line: Seq<Argument<P>>,
)
    requires
        spells(line, command_options(args)),
    ensures
        options_given(line) == Ok::<_, Seq<char>>(all_given(args)),
        missing_path(all_given(args)) is None,
{
    reveal_strlit("--wait-lock");
    reveal_strlit("--update-lock");
    reveal_strlit("--process-lock-dir");
    reveal_strlit("--installer");
    reveal_strlit("--target-dir");
    reveal_strlit("--restart");
    let o = command_options(args);
    assert(UPDATE_WAIT_LOCK_ARG@.len() == 11 && UPDATE_GLOBAL_LOCK_ARG@.len() == 13);
    assert(UPDATE_PROCESS_LOCK_DIR_ARG@.len() == 18 && UPDATE_INSTALLER_ARG@.len() == 11);
    assert(UPDATE_TARGET_DIR_ARG@.len() == 12 && UPDATE_RESTART_ARG@.len() == 9);
    assert(UPDATE_WAIT_LOCK_ARG@[2] == 'w' && UPDATE_INSTALLER_ARG@[2] == 'i');
    assert(o[0].0 == UPDATE_WAIT_LOCK_ARG@ && o[1].0 == UPDATE_GLOBAL_LOCK_ARG@);
    assert(o[2].0 == UPDATE_PROCESS_LOCK_DIR_ARG@ && o[3].0 == UPDATE_INSTALLER_ARG@);
    assert(o[4].0 == UPDATE_TARGET_DIR_ARG@ && o[5].0 == UPDATE_RESTART_ARG@);
    let l2 = line.take(2);
    let l4 = line.take(4);
    let l6 = line.take(6);
    let l8 = line.take(8);
    let l10 = line.take(10);
    assert(l2.take(0) =~= Seq::empty());
    assert(options_given(l2.take(0)) == Ok::<_, Seq<char>>(nothing_given::<P>()));
    assert(l4.take(2) =~= l2);
    assert(l6.take(4) =~= l4);
    assert(l8.take(6) =~= l6);
    assert(l10.take(8) =~= l8);
    assert(line.take(10) =~= l10);
    assert(options_given(l2) is Ok);
    assert(options_given(l4) is Ok);
    assert(options_given(l6) is Ok);
    assert(options_given(l8) is Ok);
    assert(options_given(l10) is Ok);
}

/// Two beginnings of whole options that give the same give the same with
/// anything behind them.
proof fn lemma_same_beginning<P>(
    a: Seq<Argument<P>>,
    b: Seq<Argument<P>>,
    behind: Seq<Argument<P>>,
)
    requires
        a.len() == b.len(),
        a.len() % 2 == 0,
        options_given(a) == options_given(b),
    ensures
        options_given(a + behind) == options_given(b + behind),
    decreases behind.len(),
{
    let x = a + behind;
    let y = b + behind;
    if behind.len() == 0 {
        assert(x =~= a && y =~= b);
    } else if behind.len() % 2 == 1 {
        assert(x.drop_last() =~= a + behind.drop_last());
        assert(y.drop_last() =~= b + behind.drop_last());
        lemma_same_beginning(a, b, behind.drop_last());
    } else {
        let less = behind.take(behind.len() - 2);
        assert(x.take(x.len() - 2) =~= a + less);
        assert(y.take(y.len() - 2) =~= b + less);
        lemma_same_beginning(a, b, less);
    }
}

/// The order of two options that follow on each other does not matter, where
/// both are known and they are not the same.
pub proof fn law_option_order_does_not_matter<P>(
    before: Seq<Argument<P>>,
    first: (Argument<P>, Argument<P>),
    second: (Argument<P>, Argument<P>),
    behind: Seq<Argument<P>>,
)
    requires
        before.len() % 2 == 0,
        first.0.text@ != second.0.text@,
        with_option(nothing_given(), first.0.text@, first.1.path) is Some,
        with_option(nothing_given(), second.0.text@, second.1.path) is Some,
    ensures
        options_given(before + seq![first.0, first.1, second.0, second.1] + behind)
            == options_given(before + seq![second.0, second.1, first.0, first.1] + behind),
{
    let one = before + seq![first.0, first.1];
    let other = before + seq![second.0, second.1];
    let a = before + seq![first.0, first.1, second.0, second.1];
    let b = before + seq![second.0, second.1, first.0, first.1];
    assert(one.take(one.len() - 2) =~= before);
    assert(other.take(other.len() - 2) =~= before);
    assert(a.take(a.len() - 2) =~= one);
    assert(b.take(b.len() - 2) =~= other);
    assert(options_given(a) == options_given(b)) by {
        assert(one[one.len() - 2] == first.0 && one.last() == first.1);
        assert(other[other.len() - 2] == second.0 && other.last() == second.1);
        assert(a[a.len() - 2] == second.0 && a.last() == second.1);
        assert(b[b.len() - 2] == first.0 && b.last() == first.1);
        match options_given(before) {
            Ok(_) => {
                assert(options_given(one) is Ok && options_given(other) is Ok);
                assert(options_given(a) is Ok && options_given(b) is Ok);
            },
            Err(_) => {
                assert(options_given(one) is Err && options_given(other) is Err);
            },
        }
    }
    lemma_same_beginning(a, b, behind);
}

/// Whether the program is started in update mode, judged by its first argument.
pub fn run_standalone_update_if_requested(first_argument: Option<&str>) -> (r: bool)
    ensures
        r == (first_argument matches Some(text) && text@ == STANDALONE_UPDATE_FLAG@),
{
    match first_argument {
        Some(text) => same_text(text, STANDALONE_UPDATE_FLAG),
        None => false,
    }
}

/// How a wait goes on after an attempt.
pub enum WaitStep {
    /// The wait is over.
    Ready,
    /// Try again after a pause.
    Retry,
    /// Give up with this message.
    Fail(String),
}

/// What follows where the lock is still held.
pub open spec fn still_waiting(r: WaitStep, deadline_passed: bool, late: Seq<char>) -> bool {
    if deadline_passed {
        r matches WaitStep::Fail(m) && m@ == late
    } else {
        r is Retry
    }
}

/// What follows where the operating system refused.
pub open spec fn fails_with(r: WaitStep, what: Seq<char>, fault: IoFault) -> bool {
    r matches WaitStep::Fail(m) && m@ == what + fault.message@
}

fn wait_on(deadline_passed: bool, late: &str) -> (r: WaitStep)
    ensures
        still_waiting(r, deadline_passed, late@),
{
    if deadline_passed {
        WaitStep::Fail(late.to_owned())
    } else {
        WaitStep::Retry
    }
}

/// One step of waiting for the process that started the update to end: it holds
/// the lock until then.
pub fn wait_for_parent_exit(
    attempt: LockAttempt,
    deadline_passed: bool,
    platform: Platform,
) -> (r: WaitStep)
    ensures
        match attempt {
            LockAttempt::Acquired => r is Ready,
            LockAttempt::OpenFailed(fault) => if busy(platform, fault) {
                still_waiting(r, deadline_passed, "等待 ReversedFront 關閉逾時"@)
            } else {
                fails_with(r, "無法開啟更新等待鎖："@, fault)
            },
            LockAttempt::LockFailed(fault) => if busy(platform, fault) {
                still_waiting(r, deadline_passed, "等待 ReversedFront 關閉逾時"@)
            } else {
                fails_with(r, "無法取得更新等待鎖："@, fault)
            },
        },
{
    match attempt {
        LockAttempt::Acquired => WaitStep::Ready,
        LockAttempt::OpenFailed(fault) => {
            if lock_is_busy(&fault, platform) {
                wait_on(deadline_passed, "等待 ReversedFront 關閉逾時")
            } else {
                WaitStep::Fail(joined("無法開啟更新等待鎖：", &fault.message))
            }
        },
        LockAttempt::LockFailed(fault) => {
            if lock_is_busy(&fault, platform) {
                wait_on(deadline_passed, "等待 ReversedFront 關閉逾時")
            } else {
                WaitStep::Fail(joined("無法取得更新等待鎖：", &fault.message))
            }
        },
    }
}

/// One step of waiting for the lock that only one update may hold.
pub fn wait_for_exclusive_lock(
    attempt: LockAttempt,
    deadline_passed: bool,
    platform: Platform,
) -> (r: WaitStep)
    ensures
        match attempt {
            LockAttempt::Acquired => r is Ready,
            LockAttempt::OpenFailed(fault) => fails_with(r, "無法開啟全域更新鎖："@, fault),
            LockAttempt::LockFailed(fault) => if busy(platform, fault) {
                still_waiting(r, deadline_passed, "等待全域更新鎖逾時"@)
            } else {
                fails_with(r, "無法取得全域更新鎖："@, fault)
            },
        },
{
    match attempt {
        LockAttempt::Acquired => WaitStep::Ready,
        LockAttempt::OpenFailed(fault) => WaitStep::Fail(
            joined("無法開啟全域更新鎖：", &fault.message),
        ),
        LockAttempt::LockFailed(fault) => {
            if lock_is_busy(&fault, platform) {
                wait_on(deadline_passed, "等待全域更新鎖逾時")
            } else {
                WaitStep::Fail(joined("無法取得全域更新鎖：", &fault.message))
            }
        },
    }
}

/// The outcome of the one attempt to take the update lock before a download.
pub fn acquire_update_lock(attempt: LockAttempt, platform: Platform) -> (r: Result<(), String>)
    ensures
        match attempt {
            LockAttempt::Acquired => r is Ok,
            LockAttempt::OpenFailed(fault) => r matches Err(m) && m@ == "無法開啟全域更新鎖："@
                + fault.message@,
            LockAttempt::LockFailed(fault) => r matches Err(m) && m@ == if busy(platform, fault) {
                "另一個 ReversedFront 視窗正在更新"@
            } else {
                "無法取得全域更新鎖："@ + fault.message@
            },
        },
{
    match attempt {
        LockAttempt::Acquired => Ok(()),
        LockAttempt::OpenFailed(fault) => Err(joined("無法開啟全域更新鎖：", &fault.message)),
        LockAttempt::LockFailed(fault) => {
            if lock_is_busy(&fault, platform) {
                Err("另一個 ReversedFront 視窗正在更新".to_owned())
            } else {
                Err(joined("無法取得全域更新鎖：", &fault.message))
            }
        },
    }
}

/// How the wait for all windows goes on after a slot has been looked at.
pub enum SlotWait {
    /// Look at this slot.
    Probe(usize),
    /// No window is open any more.
    Ready,
    /// A window is still open.
    Open,
    /// Give up with this message.
    Fail(String),
}

/// The message about a slot that cannot be looked at.
pub open spec fn slot_fault(slot: nat, fault: IoFault) -> Seq<char> {
    "無法檢查程序槽位 "@ + decimal(slot) + "："@ + fault.message@
}

/// What follows on a slot that no process holds.
pub open spec fn slot_is_free(r: SlotWait, slot: int) -> bool {
    if slot + 1 < MAX_PROCESS_SLOTS {
        r == SlotWait::Probe((slot + 1) as usize)
    } else {
        r is Ready
    }
}

fn slot_fault_message(slot: usize, fault: &IoFault) -> (r: String)
    ensures
        r@ == slot_fault(slot as nat, *fault),
{
    let mut message = joined("無法檢查程序槽位 ", &decimal_text(slot as u64));
    message.append("：");
    message.append(&fault.message);
    message
}

fn next_slot_wait(slot: usize) -> (r: SlotWait)
    requires
        slot < MAX_PROCESS_SLOTS,
    ensures
        slot_is_free(r, slot as int),
{
    if slot + 1 < MAX_PROCESS_SLOTS {
        SlotWait::Probe(slot + 1)
    } else {
        SlotWait::Ready
    }
}

/// One step of a round over the slots, from slot zero on, that finds out whether
/// a window is still open.
pub fn wait_for_process_slots_exit(slot: usize, probe: SlotProbe, platform: Platform) -> (r:
    SlotWait)
    requires
        slot < MAX_PROCESS_SLOTS,
    ensures
        match probe {
            SlotProbe::Missing => slot_is_free(r, slot as int),
            SlotProbe::OpenFailed(fault) => if fault.not_found {
                slot_is_free(r, slot as int)
            } else {
                r matches SlotWait::Fail(m) && m@ == slot_fault(slot as nat, fault)
            },
            SlotProbe::Locked => slot_is_free(r, slot as int),
            SlotProbe::LockFailed(fault) => if busy(platform, fault) {
                r is Open
            } else {
                r matches SlotWait::Fail(m) && m@ == slot_fault(slot as nat, fault)
            },
        },
{
    match probe {
        SlotProbe::Missing => next_slot_wait(slot),
        SlotProbe::OpenFailed(fault) => {
            if fault.not_found {
                next_slot_wait(slot)
            } else {
                SlotWait::Fail(slot_fault_message(slot, &fault))
            }
        },
        SlotProbe::Locked => next_slot_wait(slot),
        SlotProbe::LockFailed(fault) => {
            if lock_is_busy(&fault, platform) {
                SlotWait::Open
            } else {
                SlotWait::Fail(slot_fault_message(slot, &fault))
            }
        },
    }
}

/// What follows on a round that found an open window.
pub fn after_open_window(deadline_passed: bool) -> (r: WaitStep)
    ensures
        still_waiting(r, deadline_passed, "等待所有 ReversedFront 視窗關閉逾時"@),
{
    wait_on(deadline_passed, "等待所有 ReversedFront 視窗關閉逾時")
}

/// The stages of an update, in their order.
#[derive(Clone, Copy, Debug, PartialEq, Eq, Structural)]
pub enum UpdateStage {
    AwaitParent,
    AwaitLock,
    AwaitWindows,
    Install,
}

/// How a stage ended.
pub enum StageOutcome {
    Failed(String),
    /// It is done; for the installation, `true` where the program is to be
    /// started again afterwards.
    Done(bool),
}

/// How an update goes on.
pub enum UpdateAction {
    Enter(UpdateStage),
    /// It has failed; where `recover` holds, the program is started again as it
    /// was and the helper is removed.
    GiveUp { recover: bool, error: String },
    /// The helper is removed and, where `restart` holds, the program started.
    Finish { restart: bool },
}

/// The update mode: wait for the program to end, take the update lock, wait for
/// every other window to close, install. A failure once the program has ended
/// brings it back.
pub open spec fn update_flow(stage: UpdateStage, outcome: StageOutcome) -> UpdateAction {
    match outcome {
        StageOutcome::Failed(error) => UpdateAction::GiveUp {
            recover: stage != UpdateStage::AwaitParent,
            error,
        },
        StageOutcome::Done(restart) => match stage {
            UpdateStage::AwaitParent => UpdateAction::Enter(UpdateStage::AwaitLock),
            UpdateStage::AwaitLock => UpdateAction::Enter(UpdateStage::AwaitWindows),
            UpdateStage::AwaitWindows => UpdateAction::Enter(UpdateStage::Install),
            UpdateStage::Install => UpdateAction::Finish { restart },
        },
    }
}

/// The next action of the update mode after a stage has ended.
pub fn apply_standalone_update(stage: UpdateStage, outcome: StageOutcome) -> (r: UpdateAction)
    ensures
        r == update_flow(stage, outcome),
{
    match outcome {
        StageOutcome::Failed(error) => UpdateAction::GiveUp {
            recover: stage != UpdateStage::AwaitParent,
            error,
        },
        StageOutcome::Done(restart) => match stage {
            UpdateStage::AwaitParent => UpdateAction::Enter(UpdateStage::AwaitLock),
            UpdateStage::AwaitLock => UpdateAction::Enter(UpdateStage::AwaitWindows),
            UpdateStage::AwaitWindows => UpdateAction::Enter(UpdateStage::Install),
            UpdateStage::Install => UpdateAction::Finish { restart },
        },
    }
}

/// How many stages lie before `stage`.
pub open spec fn stages_before(stage: UpdateStage) -> nat {
    match stage {
        UpdateStage::AwaitParent => 0,
        UpdateStage::AwaitLock => 1,
        UpdateStage::AwaitWindows => 2,
        UpdateStage::Install => 3,
    }
}

/// A stage is entered only once the one before it is done, so nothing is
/// installed before the program, the update lock and every window have been
/// waited for; and a failure behind the first wait never leaves the user
/// without the program.
pub proof fn law_update_waits_and_recovers(stage: UpdateStage, outcome: StageOutcome)
    ensures
        match update_flow(stage, outcome) {
            UpdateAction::Enter(next) => outcome is Done && stages_before(next) == stages_before(
                stage,
            ) + 1,
            UpdateAction::GiveUp { recover, error } => outcome == StageOutcome::Failed(error) && (
            recover <==> stages_before(stage) > 0),
            UpdateAction::Finish { restart } => stage == UpdateStage::Install && outcome
                == StageOutcome::Done(restart),
        },
{
}

/// Whether the helper, the copy of the program in update mode, is removed:
/// where its path is known and is not the program's own.
pub fn cleanup_helper(helper_is_program: Option<bool>) -> (r: bool)
    ensures
        r == (helper_is_program == Some(false)),
{
    match helper_is_program {
        Some(same) => !same,
        None => false,
    }
}

/// How an installer is started.
pub enum InstallCommand {
    /// `msiexec /i`, the installer, and this argument.
    Msiexec(String),
    /// The installer itself with this argument.
    Installer(String),
    /// The installer is handed to this program, which opens it.
    Open(&'static str),
}

/// How the installer is started on the platform. `installer` and `target_dir`
/// are the displayed paths, `extension` that of the installer.
pub fn install_downloaded_update(
    installer_is_file: bool,
    installer: &str,
    extension: Option<&str>,
    target_dir: &str,
    platform: Platform,
) -> (r: Result<InstallCommand, String>)
    requires
        platform != Platform::Other,
    ensures
        if !installer_is_file {
            r matches Err(m) && m@ == "找不到更新安裝檔："@ + installer@
        } else {
            match platform {
                Platform::Windows => if extension matches Some(e) && ascii_lowercase(e@)
                    == "msi"@ {
                    r matches Ok(InstallCommand::Msiexec(a)) && a@ == "INSTALLDIR="@ + target_dir@
                } else {
                    r matches Ok(InstallCommand::Installer(a)) && a@ == "/D="@ + target_dir@
                },
                Platform::MacOs => r matches Ok(InstallCommand::Open(p)) && p@ == "open"@,
                _ => r matches Ok(InstallCommand::Open(p)) && p@ == "xdg-open"@,
            }
        },
{
    if !installer_is_file {
        return Err(joined("找不到更新安裝檔：", installer));
    }
    match platform {
        Platform::Windows => {
            let is_msi = match extension {
                Some(e) => same_text(&to_ascii_lowercase(e), "msi"),
                None => false,
            };
            if is_msi {
                Ok(InstallCommand::Msiexec(joined("INSTALLDIR=", target_dir)))
            } else {
                Ok(InstallCommand::Installer(joined("/D=", target_dir)))
            }
        },
        Platform::MacOs => Ok(InstallCommand::Open("open")),
        _ => Ok(InstallCommand::Open("xdg-open")),
    }
}

/// What came of starting an installer.
pub enum InstallerRun {
    /// It could not be started; the error's text.
    Unstarted(String),
    /// It has ended; whether with success, and its status.
    Ended(bool, String),
}

/// The message about an installer that could not be started.
pub open spec fn unstarted_message(command: InstallCommand, platform: Platform) -> Seq<char> {
    match command {
        InstallCommand::Msiexec(_) => "無法啟動 MSI 更新程式："@,
        InstallCommand::Installer(_) => "無法啟動 Windows 更新程式："@,
        InstallCommand::Open(_) => if platform == Platform::MacOs {
            "無法開啟 macOS 更新程式："@
        } else {
            "無法開啟 Linux 更新程式："@
        },
    }
}

/// The outcome of the installation stage. On Windows the installer has done the
/// work and the program is started again; elsewhere the user finishes it.
pub fn finish_install(command: &InstallCommand, run: InstallerRun, platform: Platform) -> (r:
    StageOutcome)
    ensures
        match run {
            InstallerRun::Unstarted(e) => r matches StageOutcome::Failed(m) && m@
                == unstarted_message(*command, platform) + e@,
            InstallerRun::Ended(success, status) => match *command {
                InstallCommand::Open(_) => r == StageOutcome::Done(false),
                _ => if success {
                    r == StageOutcome::Done(true)
                } else {
                    r matches StageOutcome::Failed(m) && m@ == "Windows 更新程式結束碼："@
                        + status@
                },
            },
        },
{
    match run {
        InstallerRun::Unstarted(e) => {
            let what = match command {
                InstallCommand::Msiexec(_) => "無法啟動 MSI 更新程式：",
                InstallCommand::Installer(_) => "無法啟動 Windows 更新程式：",
                InstallCommand::Open(_) => if platform == Platform::MacOs {
                    "無法開啟 macOS 更新程式："
                } else {
                    "無法開啟 Linux 更新程式："
                },
            };
            StageOutcome::Failed(joined(what, &e))
        },
        InstallerRun::Ended(success, status) => match command {
            InstallCommand::Open(_) => StageOutcome::Done(false),
            _ => if success {
                StageOutcome::Done(true)
            } else {
                StageOutcome::Failed(joined("Windows 更新程式結束碼：", &status))
            },
        },
    }
}

/// Whether the program was started again after the update.
pub fn restart_application(outcome: Result<(), String>) -> (r: Result<(), String>)
    ensures
        match outcome {
            Ok(()) => r is Ok,
            Err(error) => r matches Err(e) && e@ == "更新後無法重新啟動 ReversedFront："@ + error@,
        },
{
    match outcome {
        Ok(()) => Ok(()),
        Err(error) => Err(joined("更新後無法重新啟動 ReversedFront：", &error)),
    }
}

/// An option behind a command line that was read gives its path, whatever was given
/// before under it, and leaves the others as they were; an unknown one is refused.
pub proof fn law_last_option_counts<P>(
    before: Seq<Argument<P>>,
    flag: Argument<P>,
    value: Argument<P>,
    given: GivenPaths<P>,
)
    requires
        before.len() % 2 == 0,
        options_given(before) == Ok::<GivenPaths<P>, Seq<char>>(given),
    ensures
        flag.text@ == "--wait-lock"@ ==> options_given(before + seq![flag, value]) == Ok::<
            GivenPaths<P>,
            Seq<char>,
        >(GivenPaths { wait_lock: Some(value.path), ..given }),
        flag.text@ == "--update-lock"@ ==> options_given(before + seq![flag, value]) == Ok::<
            GivenPaths<P>,
            Seq<char>,
        >(GivenPaths { update_lock: Some(value.path), ..given }),
        flag.text@ == "--process-lock-dir"@ ==> options_given(before + seq![flag, value]) == Ok::<
            GivenPaths<P>,
            Seq<char>,
        >(GivenPaths { process_lock_dir: Some(value.path), ..given }),
        flag.text@ == "--installer"@ ==> options_given(before + seq![flag, value]) == Ok::<
            GivenPaths<P>,
            Seq<char>,
        >(GivenPaths { installer: Some(value.path), ..given }),
        flag.text@ == "--target-dir"@ ==> options_given(before + seq![flag, value]) == Ok::<
            GivenPaths<P>,
            Seq<char>,
        >(GivenPaths { target_dir: Some(value.path), ..given }),
        flag.text@ == "--restart"@ ==> options_given(before + seq![flag, value]) == Ok::<
            GivenPaths<P>,
            Seq<char>,
        >(GivenPaths { restart: Some(value.path), ..given }),
        flag.text@ != "--wait-lock"@ && flag.text@ != "--update-lock"@ && flag.text@
            != "--process-lock-dir"@ && flag.text@ != "--installer"@ && flag.text@
            != "--target-dir"@ && flag.text@ != "--restart"@ ==> options_given(
            before + seq![flag, value],
        ) is Err,
        options_given(before + seq![flag]) is Err,
{
    reveal_strlit("--wait-lock");
    reveal_strlit("--update-lock");
    reveal_strlit("--process-lock-dir");
    reveal_strlit("--installer");
    reveal_strlit("--target-dir");
    reveal_strlit("--restart");
    assert("--wait-lock"@.len() == 11 && "--update-lock"@.len() == 13
        && "--process-lock-dir"@.len() == 18 && "--installer"@.len() == 11
        && "--target-dir"@.len() == 12 && "--restart"@.len() == 9);
    assert("--wait-lock"@[2] == 'w' && "--installer"@[2] == 'i');
    let whole = before + seq![flag, value];
    assert(whole.take(whole.len() - 2) =~= before);
    assert(whole[whole.len() - 2] == flag);
    assert(whole.last() == value);
    assert((before + seq![flag]).drop_last() =~= before);
}

/// What cannot be read of a command line cannot be read whatever follows.
pub proof fn law_unread_option_is_not_forgotten<P>(
    before: Seq<Argument<P>>,
    behind: Seq<Argument<P>>,
)
    requires
        before.len() % 2 == 0,
        options_given(before) is Err,
    ensures
        options_given(before + behind) is Err,
    decreases behind.len(),
{
    let whole = before + behind;
    if behind.len() == 0 {
        assert(whole =~= before);
    } else if whole.len() % 2 == 1 {
        law_unread_option_is_not_forgotten(before, behind.drop_last());
        assert(whole.drop_last() =~= before + behind.drop_last());
    } else {
        let less = behind.take(behind.len() - 2);
        law_unread_option_is_not_forgotten(before, less);
        assert(whole.take(whole.len() - 2) =~= before + less);
    }
}

/// An update can begin exactly where all six paths are given.
pub proof fn law_all_six_paths_are_needed<P>(given: GivenPaths<P>)
    ensures
        missing_path(given) is None <==> given.wait_lock is Some && given.update_lock is Some
            && given.process_lock_dir is Some && given.installer is Some && given.target_dir is Some
            && given.restart is Some,
        options_given(Seq::<Argument<P>>::empty()) == Ok::<GivenPaths<P>, Seq<char>>(
            GivenPaths {
                wait_lock: None,
                update_lock: None,
                process_lock_dir: None,
                installer: None,
                target_dir: None,
                restart: None,
            },
        ),
{
}

/// The update waits up to five minutes.
pub proof fn law_waiting_takes_five_minutes(elapsed: u128, r: bool)
    requires
        call_ensures(deadline_passed, (elapsed,), r),
    ensures
        r <==> elapsed >= 300000,
{
}

/// The update mode waits while a lock is busy and the time is not over, goes on once
/// it has the lock, and fails on any other error with its cause.
pub proof fn law_waiting_follows_the_lock(
    fault: IoFault,
    late: bool,
    platform: Platform,
    r: WaitStep,
)
    ensures
        call_ensures(wait_for_parent_exit, (LockAttempt::Acquired, late, platform), r) ==> r is Ready,
        call_ensures(wait_for_exclusive_lock, (LockAttempt::Acquired, late, platform), r) ==> r
            is Ready,
        (call_ensures(wait_for_parent_exit, (LockAttempt::LockFailed(fault), late, platform), r)
            || call_ensures(wait_for_parent_exit, (LockAttempt::OpenFailed(fault), late, platform), r)
            || call_ensures(
            wait_for_exclusive_lock,
            (LockAttempt::LockFailed(fault), late, platform),
            r,
        )) ==> (r is Retry <==> busy(platform, fault) && !late) && (r is Fail <==> !busy(
            platform,
            fault,
        ) || late),
        call_ensures(
            wait_for_exclusive_lock,
            (LockAttempt::OpenFailed(fault), late, platform),
            r,
        ) ==> r is Fail,
        (call_ensures(wait_for_parent_exit, (LockAttempt::LockFailed(fault), late, platform), r)
            || call_ensures(wait_for_parent_exit, (LockAttempt::OpenFailed(fault), late, platform), r)
            || call_ensures(
            wait_for_exclusive_lock,
            (LockAttempt::LockFailed(fault), late, platform),
            r,
        )) && !busy(platform, fault) ==> (r matches WaitStep::Fail(m)
            && fault.message@.is_suffix_of(m@)),
        call_ensures(after_open_window, (late,), r) ==> (r is Retry <==> !late) && (r is Fail
            <==> late),
{
    let a = "無法開啟更新等待鎖："@ + fault.message@;
    let b = "無法取得更新等待鎖："@ + fault.message@;
    let c = "無法取得全域更新鎖："@ + fault.message@;
    let n = fault.message@.len();
    assert(a.subrange(a.len() - n, a.len() as int) =~= fault.message@);
    assert(b.subrange(b.len() - n, b.len() as int) =~= fault.message@);
    assert(c.subrange(c.len() - n, c.len() as int) =~= fault.message@);
}

/// Every slot is waited for, one behind the other: a free one leads to the next, the
/// last free one ends the wait, and a busy one is an open window.
pub proof fn law_every_window_is_waited_for(
    slot: usize,
    fault: IoFault,
    platform: Platform,
    r: SlotWait,
)
    requires
        slot < 64,
    ensures
        (call_ensures(wait_for_process_slots_exit, (slot, SlotProbe::Missing, platform), r)
            || call_ensures(wait_for_process_slots_exit, (slot, SlotProbe::Locked, platform), r)
            || fault.not_found && call_ensures(
            wait_for_process_slots_exit,
            (slot, SlotProbe::OpenFailed(fault), platform),
            r,
        )) ==> if slot < 63 {
            r == SlotWait::Probe((slot + 1) as usize)
        } else {
            r is Ready
        },
        call_ensures(
            wait_for_process_slots_exit,
            (slot, SlotProbe::LockFailed(fault), platform),
            r,
        ) ==> (r is Open <==> busy(platform, fault)) && (r is Fail <==> !busy(platform, fault)),
        call_ensures(
            wait_for_process_slots_exit,
            (slot, SlotProbe::OpenFailed(fault), platform),
            r,
        ) && !fault.not_found ==> r is Fail,
{
}

/// The update lock is taken or the cause is told: another update where it is busy,
/// the error itself where it is not.
pub proof fn law_update_lock_is_taken_or_told(
    fault: IoFault,
    platform: Platform,
    r: Result<(), String>,
)
    ensures
        call_ensures(acquire_update_lock, (LockAttempt::Acquired, platform), r) ==> r is Ok,
        (call_ensures(acquire_update_lock, (LockAttempt::LockFailed(fault), platform), r)
            || call_ensures(acquire_update_lock, (LockAttempt::OpenFailed(fault), platform), r)) ==> r
            is Err,
        call_ensures(acquire_update_lock, (LockAttempt::LockFailed(fault), platform), r) && busy(
            platform,
            fault,
        ) ==> (r matches Err(m) && m@ == "另一個 ReversedFront 視窗正在更新"@),
{
}

/// An installer is started as its platform asks: a Windows installer with the
/// directory of the program, `msi` in whatever case by the system's own installer,
/// and elsewhere the file is opened.
pub proof fn law_installer_is_started_for_its_directory(
    installer: &str,
    extension: &str,
    target_dir: &str,
    platform: Platform,
    r: Result<InstallCommand, String>,
)
    requires
        platform != Platform::Other,
        call_ensures(
            install_downloaded_update,
            (true, installer, Some(extension), target_dir, platform),
            r,
        ),
    ensures
        platform == Platform::Windows && ascii_lowercase(extension@) == "msi"@ ==> (
        r matches Ok(InstallCommand::Msiexec(a)) && target_dir@.is_suffix_of(a@) && a@.len()
            == "INSTALLDIR="@.len() + target_dir@.len() && "INSTALLDIR="@.is_prefix_of(a@)),
        platform == Platform::Windows && ascii_lowercase(extension@) != "msi"@ ==> (
        r matches Ok(InstallCommand::Installer(a)) && target_dir@.is_suffix_of(a@) && a@.len()
            == "/D="@.len() + target_dir@.len() && "/D="@.is_prefix_of(a@)),
        platform == Platform::MacOs ==> (r matches Ok(InstallCommand::Open(p)) && p@ == "open"@),
        platform == Platform::Linux ==> (r matches Ok(InstallCommand::Open(p)) && p@ == "xdg-open"@),
{
    let none = Seq::<char>::empty();
    lemma_framed("INSTALLDIR="@, none, target_dir@);
    lemma_framed("/D="@, none, target_dir@);
    assert("INSTALLDIR="@ + none + target_dir@ =~= "INSTALLDIR="@ + target_dir@);
    assert("/D="@ + none + target_dir@ =~= "/D="@ + target_dir@);
}

/// An installer that is not there is never started.
pub proof fn law_missing_installer_is_not_started(
    installer: &str,
    extension: Option<&str>,
    target_dir: &str,
    platform: Platform,
    r: Result<InstallCommand, String>,
)
    requires
        platform != Platform::Other,
        call_ensures(
            install_downloaded_update,
            (false, installer, extension, target_dir, platform),
            r,
        ),
    ensures
        r matches Err(m) && installer@.is_suffix_of(m@),
{
    let whole = "找不到更新安裝檔："@ + installer@;
    assert(whole.subrange(whole.len() - installer@.len(), whole.len() as int) =~= installer@);
}

/// The program is started again exactly where its own installer ended well; a file
/// that was only opened leaves that to the user, and anything else has failed.
pub proof fn law_program_restarts_behind_its_installer(
    command: &InstallCommand,
    success: bool,
    status: String,
    e: String,
    platform: Platform,
    r: StageOutcome,
)
    ensures
        call_ensures(finish_install, (command, InstallerRun::Ended(success, status), platform), r)
            ==> if *command is Open {
            r == StageOutcome::Done(false)
        } else if success {
            r == StageOutcome::Done(true)
        } else {
            r matches StageOutcome::Failed(m) && status@.is_suffix_of(m@)
        },
        call_ensures(finish_install, (command, InstallerRun::Unstarted(e), platform), r) ==> (
        r matches StageOutcome::Failed(m) && e@.is_suffix_of(m@)),
{
    let a = "Windows 更新程式結束碼："@ + status@;
    assert(a.subrange(a.len() - status@.len(), a.len() as int) =~= status@);
    let b = unstarted_message(*command, platform) + e@;
    assert(b.subrange(b.len() - e@.len(), b.len() as int) =~= e@);
}

/// The helper is removed only where it is known not to be the program itself.
pub proof fn law_program_itself_is_not_removed(helper_is_program: Option<bool>, r: bool)
    requires
        call_ensures(cleanup_helper, (helper_is_program,), r),
    ensures
        r <==> helper_is_program == Some(false),
{
}

/// The update mode is entered by its first argument alone.
pub proof fn law_update_mode_is_asked_for(first: &str, r: bool)
    ensures
        call_ensures(run_standalone_update_if_requested, (Some(first),), r) ==> (r <==> first@
            == "--rf-apply-update"@),
        call_ensures(run_standalone_update_if_requested, (None::<&str>,), r) ==> !r,
{
}

/// A command line is read exactly where its options can be read and give all six
/// paths, and gives those.
pub proof fn law_command_line_gives_all_paths<P>(
    args: Vec<Argument<P>>,
    given: GivenPaths<P>,
    r: Result<StandaloneUpdateArgs<P>, String>,
)
    requires
        call_ensures(parse_standalone_update_args::<P>, (args,), r),
    ensures
        options_given(args@) is Err ==> r is Err,
        options_given(args@) == Ok::<GivenPaths<P>, Seq<char>>(given) ==> (r is Ok
            <==> given.wait_lock is Some && given.update_lock is Some && given.process_lock_dir
            is Some && given.installer is Some && given.target_dir is Some && given.restart is Some),
        options_given(args@) == Ok::<GivenPaths<P>, Seq<char>>(given) ==> (r matches Ok(paths)
            ==> given.wait_lock == Some(paths.wait_lock) && given.update_lock == Some(
            paths.update_lock,
        ) && given.process_lock_dir == Some(paths.process_lock_dir) && given.installer == Some(
            paths.installer,
        ) && given.target_dir == Some(paths.target_dir) && given.restart == Some(paths.restart)),
{
    law_all_six_paths_are_needed(given);
}

/// The command line that starts the update mode holds each of the six options once,
/// with its own path.
pub proof fn law_command_holds_every_option<P>(
    args: StandaloneUpdateArgs<P>,
    r: Vec<(&'static str, P)>,
)
    requires
        call_ensures(standalone_update_command::<P>, (args,), r),
    ensures
        r@.len() == 6,
        r@[0].0@ == "--wait-lock"@ && r@[0].1 == args.wait_lock,
        r@[1].0@ == "--update-lock"@ && r@[1].1 == args.update_lock,
        r@[2].0@ == "--process-lock-dir"@ && r@[2].1 == args.process_lock_dir,
        r@[3].0@ == "--installer"@ && r@[3].1 == args.installer,
        r@[4].0@ == "--target-dir"@ && r@[4].1 == args.target_dir,
        r@[5].0@ == "--restart"@ && r@[5].1 == args.restart,
{
    let told = r@.map_values(|option: (&'static str, P)| (option.0@, option.1));
    assert(told == command_options(args));
    assert(told.len() == r@.len());
    assert(told[0] == (r@[0].0@, r@[0].1));
    assert(told[1] == (r@[1].0@, r@[1].1));
    assert(told[2] == (r@[2].0@, r@[2].1));
    assert(told[3] == (r@[3].0@, r@[3].1));
    assert(told[4] == (r@[4].0@, r@[4].1));
    assert(told[5] == (r@[5].0@, r@[5].1));
}

/// Each wait leads to the next and at last to the installation; a failure brings the
/// program back but where it never ended.
pub proof fn law_every_wait_leads_on(
    stage: UpdateStage,
    restart: bool,
    error: String,
    r: UpdateAction,
)
    ensures
        call_ensures(apply_standalone_update, (stage, StageOutcome::Done(restart)), r) ==> match
            stage {
            UpdateStage::AwaitParent => r == UpdateAction::Enter(UpdateStage::AwaitLock),
            UpdateStage::AwaitLock => r == UpdateAction::Enter(UpdateStage::AwaitWindows),
            UpdateStage::AwaitWindows => r == UpdateAction::Enter(UpdateStage::Install),
            UpdateStage::Install => r == (UpdateAction::Finish { restart }),
        },
        call_ensures(apply_standalone_update, (stage, StageOutcome::Failed(error)), r) ==> r == (
        UpdateAction::GiveUp { recover: stage != UpdateStage::AwaitParent, error }),
{
}

/// A program that did not start again is told with the cause.
pub proof fn law_failed_restart_tells_its_cause(error: String, r: Result<(), String>)
    ensures
        call_ensures(restart_application, (Ok::<(), String>(()),), r) ==> r is Ok,
        call_ensures(restart_application, (Err::<(), String>(error),), r) ==> (r matches Err(e)
            && error@.is_suffix_of(e@)),
{
    let whole = "更新後無法重新啟動 ReversedFront："@ + error@;
    assert(whole.subrange(whole.len() - error@.len(), whole.len() as int) =~= error@);
}

} // verus!
