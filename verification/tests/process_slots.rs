use rf_desktop::locks::{update_is_in_progress, IoFault, LockAttempt};
use rf_desktop::path::Platform;
use rf_desktop::process_slots::{
    acquire_process_slot, begin_other_processes, has_other_processes, slot_lock_name,
    slots_exhausted, OthersStep, SlotProbe, SlotStep, MAX_PROCESS_SLOTS,
};

fn held() -> IoFault {
    IoFault { would_block: true, not_found: false, address_in_use: false, os_code: Some(11), message: "held".to_string() }
}

/// The lock files of one directory, each with whether a process holds it.
struct Directory {
    slots: Vec<Option<bool>>,
}

impl Directory {
    fn new() -> Directory {
        Directory { slots: vec![None; MAX_PROCESS_SLOTS] }
    }

    fn acquire(&mut self) -> Option<usize> {
        let mut slot = 0;
        loop {
            let attempt = if self.slots[slot] == Some(true) {
                LockAttempt::LockFailed(held())
            } else {
                LockAttempt::Acquired
            };
            match acquire_process_slot(slot, attempt, Platform::Linux) {
                SlotStep::Try(next) => slot = next,
                SlotStep::Taken(taken) => {
                    self.slots[taken] = Some(true);
                    return Some(taken);
                }
                SlotStep::Exhausted => return None,
                SlotStep::Failed(fault) => panic!("{}", fault.message),
            }
        }
    }

    fn release(&mut self, slot: usize) {
        self.slots[slot] = Some(false);
    }

    fn others(&self, current: usize) -> bool {
        let mut step = begin_other_processes(self.slots.iter().any(|slot| slot.is_some()), current);
        loop {
            match step {
                OthersStep::Probe(slot) => {
                    let probe = match self.slots[slot] {
                        None => SlotProbe::Missing,
                        Some(true) => SlotProbe::LockFailed(held()),
                        Some(false) => SlotProbe::Locked,
                    };
                    step = has_other_processes(slot, probe, current, Platform::Linux);
                }
                OthersStep::Answer(answer) => return answer,
                OthersStep::Failed(fault) => panic!("{}", fault.message),
            }
        }
    }
}

#[test]
fn simultaneous_instances_receive_distinct_slots() {
    let mut directory = Directory::new();
    assert!(!directory.others(0));

    let first_slot = directory.acquire().unwrap();
    let second_slot = directory.acquire().unwrap();

    assert_eq!(first_slot, 0);
    assert_eq!(second_slot, 1);
    assert!(directory.others(first_slot));
    directory.release(second_slot);
    assert!(!directory.others(first_slot));
}

#[test]
fn slots_run_out_and_are_reused() {
    let mut directory = Directory::new();
    for expected in 0..MAX_PROCESS_SLOTS {
        assert_eq!(directory.acquire(), Some(expected));
    }
    assert_eq!(directory.acquire(), None);
    let error = slots_exhausted();
    assert!(error.address_in_use);
    assert_eq!(error.message, "ReversedFront process slots are exhausted");
    directory.release(17);
    assert_eq!(directory.acquire(), Some(17));
    assert_eq!(slot_lock_name(17), "slot-17.lock");
}

#[test]
fn slot_errors_are_told_apart() {
    let fault = |code| IoFault {
        would_block: false,
        not_found: false,
        address_in_use: false,
        os_code: Some(code),
        message: "refused".to_string(),
    };
    assert!(matches!(
        acquire_process_slot(0, LockAttempt::LockFailed(fault(33)), Platform::Windows),
        SlotStep::Try(1)
    ));
    assert!(matches!(
        acquire_process_slot(0, LockAttempt::LockFailed(fault(32)), Platform::Windows),
        SlotStep::Failed(_)
    ));
    assert!(matches!(
        acquire_process_slot(0, LockAttempt::LockFailed(fault(33)), Platform::Linux),
        SlotStep::Failed(_)
    ));
    assert!(matches!(
        has_other_processes(3, SlotProbe::LockFailed(fault(32)), 0, Platform::Windows),
        OthersStep::Answer(true)
    ));
    assert!(matches!(
        has_other_processes(3, SlotProbe::OpenFailed(fault(5)), 0, Platform::Windows),
        OthersStep::Failed(_)
    ));
}

#[test]
fn held_update_lock_means_an_update_runs() {
    assert_eq!(
        update_is_in_progress(LockAttempt::Acquired, Platform::Linux).ok(),
        Some(false)
    );
    assert_eq!(
        update_is_in_progress(LockAttempt::LockFailed(held()), Platform::Linux).ok(),
        Some(true)
    );
    assert!(update_is_in_progress(LockAttempt::OpenFailed(held()), Platform::Linux).is_err());
}
