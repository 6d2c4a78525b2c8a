//! The slots that keep concurrently running processes apart: each process
//! holds the lock of one numbered slot for as long as it runs.

use crate::locks::{busy, lock_is_busy, IoFault, LockAttempt};
use crate::path::Platform;
use crate::text::{decimal, decimal_text, lemma_decimal_injective, lemma_framed};
use vstd::prelude::*;

verus! {

/// The number of slots.
pub const MAX_PROCESS_SLOTS: usize = 64;

/// The directory of the slots' lock files, inside the application data.
pub const PROCESS_LOCK_DIR: &'static str = "process-locks";

/// The name of a slot's lock file.
pub open spec fn slot_file(slot: nat) -> Seq<char> {
    "slot-"@ + decimal(slot) + ".lock"@
}

/// The name of a slot's lock file.
pub fn slot_lock_name(slot: usize) -> (r: String)
    ensures
        r@ == slot_file(slot as nat),
{
    let mut name = "slot-".to_owned();
    name.append(&decimal_text(slot as u64));
    name.append(".lock");
    name
}

/// Different slots have different lock files.
pub proof fn law_slot_files_are_distinct(slot: nat, other: nat)
    requires
        slot != other,
    ensures
        slot_file(slot) != slot_file(other),
{
    let a = slot_file(slot);
    let b = slot_file(other);
    let head = "slot-"@.len() as int;
    let tail = ".lock"@.len() as int;
    if a == b {
        assert(a.subrange(head, a.len() - tail) =~= decimal(slot));
        assert(b.subrange(head, b.len() - tail) =~= decimal(other));
        lemma_decimal_injective(slot, other);
    }
}

/// What to do after an attempt to take a slot.
pub enum SlotStep {
    /// Try to take this slot next.
    Try(usize),
    /// The process now holds this slot.
    Taken(usize),
    /// Every slot is held by another process; `slots_exhausted` is the error.
    Exhausted,
    /// The operating system refused.
    Failed(IoFault),
}

/// The error says that another process holds the slot.
pub open spec fn slot_held(platform: Platform, fault: IoFault) -> bool {
    fault.would_block || platform == Platform::Windows && fault.os_code == Some(33i32)
}

/// What follows on a slot that another process holds.
pub open spec fn slot_after(slot: int) -> SlotStep {
    if slot + 1 < MAX_PROCESS_SLOTS {
        SlotStep::Try((slot + 1) as usize)
    } else {
        SlotStep::Exhausted
    }
}

/// One step of taking the first free slot, beginning with an attempt on slot
/// zero.
pub fn acquire_process_slot(slot: usize, attempt: LockAttempt, platform: Platform) -> (r: SlotStep)
    requires
        slot < MAX_PROCESS_SLOTS,
    ensures
        r == match attempt {
            LockAttempt::Acquired => SlotStep::Taken(slot),
            LockAttempt::OpenFailed(fault) => SlotStep::Failed(fault),
            LockAttempt::LockFailed(fault) => if slot_held(platform, fault) {
                slot_after(slot as int)
            } else {
                SlotStep::Failed(fault)
            },
        },
{
    match attempt {
        LockAttempt::Acquired => SlotStep::Taken(slot),
        LockAttempt::OpenFailed(fault) => SlotStep::Failed(fault),
        LockAttempt::LockFailed(fault) => {
            let held = fault.would_block || (platform == Platform::Windows && match fault.os_code {
                Some(code) => code == 33,
                None => false,
            });
            if !held {
                SlotStep::Failed(fault)
            } else if slot + 1 < MAX_PROCESS_SLOTS {
                SlotStep::Try(slot + 1)
            } else {
                SlotStep::Exhausted
            }
        },
    }
}

/// The error where every slot is held by another process.
pub fn slots_exhausted() -> (r: IoFault)
    ensures
        r.address_in_use,
        !r.would_block,
        !r.not_found,
        r.os_code is None,
        r.message@ == "ReversedFront process slots are exhausted"@,
{
    IoFault {
        would_block: false,
        not_found: false,
        address_in_use: true,
        os_code: None,
        message: "ReversedFront process slots are exhausted".to_owned(),
    }
}

/// What the steps come to from `slot` on, where other processes hold exactly
/// the slots in `held` and nothing else fails.
pub open spec fn slot_search(held: Set<int>, slot: int) -> SlotStep
    decreases MAX_PROCESS_SLOTS - slot,
{
    if !held.contains(slot) {
        SlotStep::Taken(slot as usize)
    } else {
        match slot_after(slot) {
            SlotStep::Try(next) => if slot < next < MAX_PROCESS_SLOTS {
                slot_search(held, next as int)
            } else {
                SlotStep::Exhausted
            },
            other => other,
        }
    }
}

/// A process takes the lowest slot that no other process holds, and finds none
/// only where all are held.
pub proof fn law_lowest_free_slot_is_taken(held: Set<int>)
    ensures
        match slot_search(held, 0) {
            SlotStep::Taken(slot) => {
                &&& slot < MAX_PROCESS_SLOTS
                &&& !held.contains(slot as int)
                &&& forall|s: int| 0 <= s < slot ==> held.contains(s)
            },
            SlotStep::Exhausted => forall|s: int| 0 <= s < MAX_PROCESS_SLOTS ==> held.contains(s),
            _ => false,
        },
{
    lemma_search_from(held, 0);
}

proof fn lemma_search_from(held: Set<int>, slot: int)
    requires
        0 <= slot < MAX_PROCESS_SLOTS,
        forall|s: int| 0 <= s < slot ==> held.contains(s),
    ensures
        match slot_search(held, slot) {
            SlotStep::Taken(t) => {
                &&& t < MAX_PROCESS_SLOTS
                &&& !held.contains(t as int)
                &&& forall|s: int| 0 <= s < t ==> held.contains(s)
            },
            SlotStep::Exhausted => forall|s: int| 0 <= s < MAX_PROCESS_SLOTS ==> held.contains(s),
            _ => false,
        },
    decreases MAX_PROCESS_SLOTS - slot,
{
    if held.contains(slot) && slot + 1 < MAX_PROCESS_SLOTS {
        lemma_search_from(held, slot + 1);
    }
}

/// A process that starts while another holds its slot gets a different one.
pub proof fn law_simultaneous_processes_get_distinct_slots(held: Set<int>, first: usize)
    requires
        slot_search(held, 0) == SlotStep::Taken(first),
    ensures
        match slot_search(held.insert(first as int), 0) {
            SlotStep::Taken(second) => first < second < MAX_PROCESS_SLOTS,
            SlotStep::Exhausted => forall|s: int|
                0 <= s < MAX_PROCESS_SLOTS && s != first ==> held.contains(s),
            _ => false,
        },
{
    law_lowest_free_slot_is_taken(held);
    let after = held.insert(first as int);
    law_lowest_free_slot_is_taken(after);
    match slot_search(after, 0) {
        SlotStep::Taken(second) => {
            if second < first {
                assert(held.contains(second as int));
                assert(after.contains(second as int));
            }
        },
        SlotStep::Exhausted => {
            assert forall|s: int| 0 <= s < MAX_PROCESS_SLOTS && s != first implies held.contains(
                s,
            ) by {
                assert(after.contains(s));
            }
        },
        _ => {},
    }
}

/// What was found at a slot: whether its lock file is there, can be opened and
/// can be locked.
pub enum SlotProbe {
    Missing,
    OpenFailed(IoFault),
    Locked,
    LockFailed(IoFault),
}

/// What to do next in the search for another running process.
pub enum OthersStep {
    /// Look at this slot.
    Probe(usize),
    /// Another process runs, or none does.
    Answer(bool),
    /// The operating system refused.
    Failed(IoFault),
}

/// The first slot from `slot` on that is not the process's own.
pub open spec fn next_other(slot: int, current: usize) -> OthersStep {
    let candidate = if slot == current {
        slot + 1
    } else {
        slot
    };
    if candidate < MAX_PROCESS_SLOTS {
        OthersStep::Probe(candidate as usize)
    } else {
        OthersStep::Answer(false)
    }
}

fn next_other_slot(slot: usize, current_slot: usize) -> (r: OthersStep)
    requires
        slot <= MAX_PROCESS_SLOTS,
    ensures
        r == next_other(slot as int, current_slot),
{
    let candidate: usize = if slot == current_slot {
        slot + 1
    } else {
        slot
    };
    if candidate < MAX_PROCESS_SLOTS {
        OthersStep::Probe(candidate)
    } else {
        OthersStep::Answer(false)
    }
}

/// The beginning of the search for another running process.
pub fn begin_other_processes(lock_dir_exists: bool, current_slot: usize) -> (r: OthersStep)
    ensures
        r == if lock_dir_exists {
            next_other(0, current_slot)
        } else {
            OthersStep::Answer(false)
        },
{
    if lock_dir_exists {
        next_other_slot(0, current_slot)
    } else {
        OthersStep::Answer(false)
    }
}

/// One step of the search for a process other than the one in `current_slot`.
pub fn has_other_processes(
    slot: usize,
    probe: SlotProbe,
    current_slot: usize,
    platform: Platform,
) -> (r: OthersStep)
    requires
        slot < MAX_PROCESS_SLOTS,
    ensures
        r == match probe {
            SlotProbe::Missing => next_other(slot + 1, current_slot),
            SlotProbe::OpenFailed(fault) => OthersStep::Failed(fault),
            SlotProbe::Locked => next_other(slot + 1, current_slot),
            SlotProbe::LockFailed(fault) => if busy(platform, fault) {
                OthersStep::Answer(true)
            } else {
                OthersStep::Failed(fault)
            },
        },
{
    match probe {
        SlotProbe::Missing => next_other_slot(slot + 1, current_slot),
        SlotProbe::OpenFailed(fault) => OthersStep::Failed(fault),
        SlotProbe::Locked => next_other_slot(slot + 1, current_slot),
        SlotProbe::LockFailed(fault) => {
            if lock_is_busy(&fault, platform) {
                OthersStep::Answer(true)
            } else {
                OthersStep::Failed(fault)
            }
        },
    }
}

/// What the steps come to, where processes hold exactly the slots in `held` and
/// nothing else fails.
pub open spec fn others_search(held: Set<int>, step: OthersStep, current: usize) -> bool
    decreases
            (match step {
                OthersStep::Probe(slot) => MAX_PROCESS_SLOTS + 1 - slot,
                _ => 0,
            }),
{
    match step {
        OthersStep::Probe(slot) => if slot >= MAX_PROCESS_SLOTS {
            false
        } else if held.contains(slot as int) {
            others_search(held, OthersStep::Answer(true), current)
        } else {
            others_search(held, next_other(slot + 1, current), current)
        },
        OthersStep::Answer(found) => found,
        OthersStep::Failed(_) => false,
    }
}

/// The search finds another process exactly where a slot other than the
/// process's own is held.
pub proof fn law_other_process_is_found(held: Set<int>, current: usize)
    ensures
        others_search(held, next_other(0, current), current) <==> exists|s: int|
            0 <= s < MAX_PROCESS_SLOTS && s != current && #[trigger] held.contains(s),
{
    lemma_others_from(held, 0, current);
}

proof fn lemma_others_from(held: Set<int>, slot: int, current: usize)
    requires
        0 <= slot <= MAX_PROCESS_SLOTS,
    ensures
        others_search(held, next_other(slot, current), current) <==> exists|s: int|
            slot <= s < MAX_PROCESS_SLOTS && s != current && #[trigger] held.contains(s),
    decreases MAX_PROCESS_SLOTS - slot,
{
    reveal_with_fuel(others_search, 2);
    let candidate = if slot == current {
        slot + 1
    } else {
        slot
    };
    if candidate < MAX_PROCESS_SLOTS {
        lemma_others_from(held, candidate + 1, current);
        if held.contains(candidate) {
            assert(candidate != current);
        }
    }
}

/// There are sixty-four slots: where those below one of them are held and it is
/// not, it is the one taken; where all are held, none is.
pub proof fn law_every_slot_can_be_taken(held: Set<int>, free: usize)
    requires
        free <= 64,
        forall|s: int| 0 <= s < free ==> held.contains(s),
        free < 64 ==> !held.contains(free as int),
    ensures
        slot_search(held, 0) == if free < 64 {
            SlotStep::Taken(free)
        } else {
            SlotStep::Exhausted
        },
{
    law_lowest_free_slot_is_taken(held);
}

/// Another process is found in whichever of the sixty-four slots it is.
pub proof fn law_process_is_found_in_every_slot(held: Set<int>, current: usize, slot: int)
    requires
        0 <= slot < 64,
        held.contains(slot),
        slot != current,
    ensures
        others_search(held, next_other(0, current), current),
{
    law_other_process_is_found(held, current);
}

/// A lock that would block is held on every platform, and on Windows one that the
/// system reports by its code for a locked region; no other error says that a slot
/// is held.
pub proof fn law_held_slots_are_told_apart(platform: Platform, fault: IoFault)
    ensures
        fault.would_block ==> slot_held(platform, fault),
        !fault.would_block && platform != Platform::Windows ==> !slot_held(platform, fault),
        !fault.would_block && platform == Platform::Windows ==> (slot_held(platform, fault)
            <==> fault.os_code == Some(33i32)),
{
}

/// A slot's file is named by its number.
pub proof fn law_slot_file_carries_its_number(slot: nat)
    ensures
        slot_file(slot).len() == "slot-"@.len() + decimal(slot).len() + ".lock"@.len(),
        "slot-"@.is_prefix_of(slot_file(slot)),
        ".lock"@.is_suffix_of(slot_file(slot)),
        decimal(slot).is_prefix_of(slot_file(slot).skip("slot-"@.len() as int)),
{
    lemma_framed("slot-"@, decimal(slot), ".lock"@);
    let rest = slot_file(slot).skip("slot-"@.len() as int);
    assert(rest.subrange(0, decimal(slot).len() as int) =~= decimal(slot));
}

/// A slot whose lock was taken is the process's own; one that another process holds
/// leads to the next, and past the last to none; any other error ends the search.
pub proof fn law_slots_are_tried_in_order(
    slot: usize,
    fault: IoFault,
    platform: Platform,
    r: SlotStep,
)
    requires
        slot < 64,
    ensures
        call_ensures(acquire_process_slot, (slot, LockAttempt::Acquired, platform), r) ==> r
            == SlotStep::Taken(slot),
        call_ensures(acquire_process_slot, (slot, LockAttempt::LockFailed(fault), platform), r)
            && fault.would_block && slot < 63 ==> r == SlotStep::Try((slot + 1) as usize),
        call_ensures(acquire_process_slot, (slot, LockAttempt::LockFailed(fault), platform), r)
            && fault.would_block && slot == 63 ==> r == SlotStep::Exhausted,
        call_ensures(acquire_process_slot, (slot, LockAttempt::LockFailed(fault), platform), r)
            && !slot_held(platform, fault) ==> r == SlotStep::Failed(fault),
        call_ensures(acquire_process_slot, (slot, LockAttempt::OpenFailed(fault), platform), r) ==> r
            == SlotStep::Failed(fault),
{
}

/// A slot that is free or was never used leads to the next, the process's own is left
/// out, a busy one answers, and past the last the answer is no.
pub proof fn law_other_slots_are_probed_in_order(
    slot: usize,
    fault: IoFault,
    current: usize,
    platform: Platform,
    r: OthersStep,
)
    requires
        slot < 64,
    ensures
        (call_ensures(has_other_processes, (slot, SlotProbe::Locked, current, platform), r)
            || call_ensures(has_other_processes, (slot, SlotProbe::Missing, current, platform), r))
            ==> r == if slot + 1 != current && slot + 1 < 64 {
            OthersStep::Probe((slot + 1) as usize)
        } else if slot + 1 == current && slot + 2 < 64 {
            OthersStep::Probe((slot + 2) as usize)
        } else {
            OthersStep::Answer(false)
        },
        call_ensures(
            has_other_processes,
            (slot, SlotProbe::LockFailed(fault), current, platform),
            r,
        ) ==> r == if busy(platform, fault) {
            OthersStep::Answer(true)
        } else {
            OthersStep::Failed(fault)
        },
        call_ensures(
            has_other_processes,
            (slot, SlotProbe::OpenFailed(fault), current, platform),
            r,
        ) ==> r == OthersStep::Failed(fault),
        call_ensures(begin_other_processes, (false, current), r) ==> r == OthersStep::Answer(false),
        call_ensures(begin_other_processes, (true, current), r) ==> r == OthersStep::Probe(
            if current == 0 {
                1
            } else {
                0
            },
        ),
{
}

/// A slot's lock file is named by its number alone.
pub proof fn law_slot_lock_is_named_by_its_number(
    slot: usize,
    other: usize,
    r: String,
    s: String,
)
    requires
        call_ensures(slot_lock_name, (slot,), r),
        call_ensures(slot_lock_name, (other,), s),
    ensures
        r@ == s@ ==> slot == other,
        "slot-"@.is_prefix_of(r@),
        ".lock"@.is_suffix_of(r@),
        r@.len() == "slot-"@.len() + decimal(slot as nat).len() + ".lock"@.len(),
{
    if slot != other {
        law_slot_files_are_distinct(slot as nat, other as nat);
    }
    law_slot_file_carries_its_number(slot as nat);
}

} // verus!
