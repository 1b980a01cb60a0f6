//! The scheduler: which ready process runs next, and for how long.

use crate::process::pcb::{is_ready, ProcessControlBlock, ProcessId, ProcessMap, ProcessState};
use crate::ordered::{ascending, enumerates, keys_in_order};
use std::collections::BTreeMap;
use vstd::prelude::*;

verus! {

/// Length of a time slice, in timer ticks.  It does not depend on priority.
pub const TIME_SLICE: u64 = 100;

/// Policy by which the scheduler picks the next process.
#[derive(Debug, Clone, Copy, PartialEq, Eq, Structural)]
pub enum SchedulingAlgorithm {
    RoundRobin,
    Priority,
    FirstComeFirstServed,
    ShortestJobFirst,
}

/// Snapshot of the scheduler's bookkeeping.
#[derive(Debug)]
pub struct SchedulerStats {
    pub current_process: Option<ProcessId>,
    pub time_slice_remaining: u64,
    pub total_switches: u64,
    pub algorithm: SchedulingAlgorithm,
}

/// Process scheduler with a choice of policies.
pub struct ProcessScheduler {
    current_process: Option<ProcessId>,
    time_slice_remaining: u64,
    total_switches: u64,
    scheduling_algorithm: SchedulingAlgorithm,
}

/// The set of pids that are ready to run.
pub open spec fn ready_set(processes: ProcessMap) -> Set<ProcessId> {
    Set::new(|pid: ProcessId| is_ready(processes, pid))
}

/// Some process is ready to run.
pub open spec fn any_ready(processes: ProcessMap) -> bool {
    exists|pid: ProcessId| is_ready(processes, pid)
}

/// `pid` is the ready process with the smallest pid.
pub open spec fn first_ready(processes: ProcessMap, pid: ProcessId) -> bool {
    &&& is_ready(processes, pid)
    &&& forall|other: ProcessId| is_ready(processes, other) ==> pid <= other
}

/// `pid` is the ready process with the smallest pid above `current`.
pub open spec fn next_ready_after(processes: ProcessMap, current: ProcessId, pid: ProcessId) -> bool {
    &&& is_ready(processes, pid)
    &&& current < pid
    &&& forall|other: ProcessId| is_ready(processes, other) && current < other ==> pid <= other
}

/// Some ready process has a pid above `current`.
pub open spec fn any_ready_after(processes: ProcessMap, current: ProcessId) -> bool {
    exists|other: ProcessId| is_ready(processes, other) && current < other
}

/// Round robin: the ready processes take turns in ascending pid order.  The
/// successor of a ready current process is the next ready pid above it, or
/// the first ready pid when none is above; without a ready current process
/// the first ready pid is picked.
pub open spec fn round_robin_pick(
    processes: ProcessMap,
    current: Option<ProcessId>,
    pid: ProcessId,
) -> bool {
    match current {
        Some(c) => if is_ready(processes, c) && any_ready_after(processes, c) {
            next_ready_after(processes, c, pid)
        } else {
            first_ready(processes, pid)
        },
        None => first_ready(processes, pid),
    }
}

/// Priority: the ready process of the highest priority, the smallest pid
/// among equals.
pub open spec fn priority_pick(processes: ProcessMap, pid: ProcessId) -> bool {
    &&& is_ready(processes, pid)
    &&& forall|other: ProcessId|
        is_ready(processes, other) ==> {
            ||| processes[other].priority.level() < processes[pid].priority.level()
            ||| (processes[other].priority.level() == processes[pid].priority.level() && pid
                <= other)
        }
}

/// First come, first served: the ready process that was created earliest,
/// the smallest pid among equals.
pub open spec fn fcfs_pick(processes: ProcessMap, pid: ProcessId) -> bool {
    &&& is_ready(processes, pid)
    &&& forall|other: ProcessId|
        is_ready(processes, other) ==> {
            ||| processes[pid].creation_time < processes[other].creation_time
            ||| (processes[pid].creation_time == processes[other].creation_time && pid <= other)
        }
}

/// Shortest job first: the ready process with the smallest memory
/// footprint, which stands for the size of the job; the smallest pid among
/// equals.
pub open spec fn sjf_pick(processes: ProcessMap, pid: ProcessId) -> bool {
    &&& is_ready(processes, pid)
    &&& forall|other: ProcessId|
        is_ready(processes, other) ==> {
            ||| processes[pid].memory_usage < processes[other].memory_usage
            ||| (processes[pid].memory_usage == processes[other].memory_usage && pid <= other)
        }
}

/// `pid` is the process that `algorithm` picks from `processes` when
/// `current` ran last.
pub open spec fn picks(
    algorithm: SchedulingAlgorithm,
    processes: ProcessMap,
    current: Option<ProcessId>,
    pid: ProcessId,
) -> bool {
    match algorithm {
        SchedulingAlgorithm::RoundRobin => round_robin_pick(processes, current, pid),
        SchedulingAlgorithm::Priority => priority_pick(processes, pid),
        SchedulingAlgorithm::FirstComeFirstServed => fcfs_pick(processes, pid),
        SchedulingAlgorithm::ShortestJobFirst => sjf_pick(processes, pid),
    }
}

/// The switch counter after one more switch.  It wraps around at the end
/// of its range.
pub open spec fn next_switch_count(count: u64) -> u64 {
    if count == u64::MAX {
        0
    } else {
        (count + 1) as u64
    }
}

/// The time-slice counter after one tick: one less, never below zero.
pub open spec fn after_tick(remaining: u64) -> u64 {
    if remaining > 0 {
        (remaining - 1) as u64
    } else {
        0
    }
}

/// The time-slice counter after `ticks` ticks.
pub open spec fn after_ticks(remaining: u64, ticks: nat) -> u64
    decreases ticks,
{
    if ticks == 0 {
        remaining
    } else {
        after_tick(after_ticks(remaining, (ticks - 1) as nat))
    }
}

/// The ready pids of a process table, smallest first.
pub fn ready_pids(processes: &BTreeMap<ProcessId, ProcessControlBlock>) -> (ready: Vec<ProcessId>)
    ensures
        enumerates(ready@, ready_set(processes@)),
{
    let all = keys_in_order(processes);
    let mut ready: Vec<ProcessId> = Vec::new();
    let mut i: usize = 0;
    while i < all.len()
        invariant
            0 <= i <= all.len(),
            enumerates(all@, processes@.dom()),
            ascending(ready@),
            forall|k: int, j: int|
                0 <= k < ready@.len() && i <= j < all@.len() ==> ready@[k] < all@[j],
            forall|k: int| 0 <= k < ready@.len() ==> is_ready(processes@, #[trigger] ready@[k]),
            forall|j: int|
                0 <= j < i && is_ready(processes@, #[trigger] all@[j]) ==> ready@.contains(
                    all@[j],
                ),
        decreases all.len() - i,
    {
        let pid = all[i];
        let ghost before = ready@;
        assert(all@.contains(pid));
        match processes.get(&pid) {
            Some(pcb) => {
                if pcb.state == ProcessState::Ready {
                    ready.push(pid);
                    assert(ready@[before.len() as int] == pid);
                }
            },
            None => {},
        }
        assert forall|j: int|
            0 <= j < i + 1 && is_ready(processes@, #[trigger] all@[j]) implies ready@.contains(
            all@[j],
        ) by {
            if j < i {
                let k = choose|k: int| 0 <= k < before.len() && before[k] == all@[j];
                assert(ready@[k] == all@[j]);
            } else {
                assert(ready@[before.len() as int] == pid);
            }
        }
        i = i + 1;
    }
    proof {
        assert forall|pid: ProcessId| ready@.contains(pid) <==> ready_set(processes@).contains(
            pid,
        ) by {
            if is_ready(processes@, pid) {
                assert(all@.contains(pid));
                let j = choose|j: int| 0 <= j < all@.len() && all@[j] == pid;
                assert(ready@.contains(all@[j]));
            }
        }
    }
    ready
}

impl View for ProcessScheduler {
    type V = SchedulerStats;

    closed spec fn view(&self) -> SchedulerStats {
        SchedulerStats {
            current_process: self.current_process,
            time_slice_remaining: self.time_slice_remaining,
            total_switches: self.total_switches,
            algorithm: self.scheduling_algorithm,
        }
    }
}

/// The scheduler's bookkeeping after it has switched to `pid`: `pid` is
/// current, the time slice is full again and one more switch is counted.
pub open spec fn switched_to(before: SchedulerStats, pid: ProcessId) -> SchedulerStats {
    SchedulerStats {
        current_process: Some(pid),
        time_slice_remaining: TIME_SLICE,
        total_switches: next_switch_count(before.total_switches),
        algorithm: before.algorithm,
    }
}

impl ProcessScheduler {
    /// A scheduler with no current process, a full time slice, no switches
    /// counted and the round-robin policy.
    pub fn new() -> (scheduler: Self)
        ensures
            scheduler@ == (SchedulerStats {
                current_process: None,
                time_slice_remaining: TIME_SLICE,
                total_switches: 0,
                algorithm: SchedulingAlgorithm::RoundRobin,
            }),
    {
        ProcessScheduler {
            current_process: None,
            time_slice_remaining: TIME_SLICE,
            total_switches: 0,
            scheduling_algorithm: SchedulingAlgorithm::RoundRobin,
        }
    }

    /// Sets the scheduling policy.
    pub fn set_algorithm(&mut self, algorithm: SchedulingAlgorithm)
        ensures
            final(self)@ == (SchedulerStats { algorithm, ..old(self)@ }),
    {
        self.scheduling_algorithm = algorithm;
    }

    /// Picks the next process to run under the current policy, among the
    /// ready processes of `processes`.
    ///
    /// Returns `None`, and changes nothing, when no process is ready.
    /// Otherwise the picked process becomes current, the time slice is
    /// reset and the switch is counted.  The process table is not changed.
    pub fn schedule_next(
        &mut self,
        processes: &mut BTreeMap<ProcessId, ProcessControlBlock>,
    ) -> (next: Option<ProcessId>)
        ensures
            final(processes)@ == old(processes)@,
            next is None <==> !any_ready(old(processes)@),
            next matches Some(pid) ==> picks(
                old(self)@.algorithm,
                old(processes)@,
                old(self)@.current_process,
                pid,
            ),
            next matches Some(pid) ==> final(self)@ == switched_to(old(self)@, pid),
            next is None ==> final(self)@ == old(self)@,
    {
        match self.scheduling_algorithm {
            SchedulingAlgorithm::RoundRobin => self.schedule_round_robin(processes),
            SchedulingAlgorithm::Priority => self.schedule_priority(processes),
            SchedulingAlgorithm::FirstComeFirstServed => self.schedule_fcfs(processes),
            SchedulingAlgorithm::ShortestJobFirst => self.schedule_sjf(processes),
        }
    }

    /// Makes `pid` current with a full time slice and counts the switch.
    fn switch_to(&mut self, pid: ProcessId)
        ensures
            final(self)@ == switched_to(old(self)@, pid),
    {
        self.current_process = Some(pid);
        self.time_slice_remaining = TIME_SLICE;
        self.total_switches = self.total_switches.wrapping_add(1);
    }

    /// Round-robin scheduling.
    fn schedule_round_robin(
        &mut self,
        processes: &mut BTreeMap<ProcessId, ProcessControlBlock>,
    ) -> (next: Option<ProcessId>)
        ensures
            final(processes)@ == old(processes)@,
            next is None <==> !any_ready(old(processes)@),
            next matches Some(pid) ==> round_robin_pick(
                old(processes)@,
                old(self)@.current_process,
                pid,
            ),
            next matches Some(pid) ==> final(self)@ == switched_to(old(self)@, pid),
            next is None ==> final(self)@ == old(self)@,
    {
        match round_robin_successor(processes, self.current_process) {
            Some(next_pid) => {
                self.switch_to(next_pid);
                Some(next_pid)
            },
            None => None,
        }
    }

    /// Priority-based scheduling.
    fn schedule_priority(
        &mut self,
        processes: &mut BTreeMap<ProcessId, ProcessControlBlock>,
    ) -> (next: Option<ProcessId>)
        ensures
            final(processes)@ == old(processes)@,
            next is None <==> !any_ready(old(processes)@),
            next matches Some(pid) ==> priority_pick(old(processes)@, pid),
            next matches Some(pid) ==> final(self)@ == switched_to(old(self)@, pid),
            next is None ==> final(self)@ == old(self)@,
    {
        let ready = ready_pids(processes);
        if ready.len() == 0 {
            assert forall|pid: ProcessId| !is_ready(processes@, pid) by {
                assert(!ready@.contains(pid));
            }
            return None;
        }
        assert(ready@.contains(ready@[0]));
        let mut best: ProcessId = ready[0];
        let mut best_level: u8 = priority_of(processes, best);
        let mut i: usize = 1;
        while i < ready.len()
            invariant
                1 <= i <= ready.len(),
                enumerates(ready@, ready_set(processes@)),
                is_ready(processes@, best),
                best_level == processes@[best].priority.level(),
                forall|j: int| i <= j < ready@.len() ==> best < #[trigger] ready@[j],
                forall|k: int|
                    0 <= k < i ==> {
                        ||| processes@[#[trigger] ready@[k]].priority.level() < best_level
                        ||| (processes@[ready@[k]].priority.level() == best_level && best
                            <= ready@[k])
                    },
            decreases ready.len() - i,
        {
            let pid = ready[i];
            assert(ready@.contains(pid));
            let level = priority_of(processes, pid);
            if level > best_level {
                best = pid;
                best_level = level;
            }
            i = i + 1;
        }
        assert(priority_pick(processes@, best)) by {
            assert forall|other: ProcessId| is_ready(processes@, other) implies {
                ||| processes@[other].priority.level() < processes@[best].priority.level()
                ||| (processes@[other].priority.level() == processes@[best].priority.level()
                    && best <= other)
            } by {
                assert(ready@.contains(other));
            }
        }
        self.switch_to(best);
        Some(best)
    }

    /// First-come-first-served scheduling.
    fn schedule_fcfs(
        &mut self,
        processes: &mut BTreeMap<ProcessId, ProcessControlBlock>,
    ) -> (next: Option<ProcessId>)
        ensures
            final(processes)@ == old(processes)@,
            next is None <==> !any_ready(old(processes)@),
            next matches Some(pid) ==> fcfs_pick(old(processes)@, pid),
            next matches Some(pid) ==> final(self)@ == switched_to(old(self)@, pid),
            next is None ==> final(self)@ == old(self)@,
    {
        let ready = ready_pids(processes);
        if ready.len() == 0 {
            assert forall|pid: ProcessId| !is_ready(processes@, pid) by {
                assert(!ready@.contains(pid));
            }
            return None;
        }
        assert(ready@.contains(ready@[0]));
        let mut best: ProcessId = ready[0];
        let mut best_time: u64 = creation_time_of(processes, best);
        let mut i: usize = 1;
        while i < ready.len()
            invariant
                1 <= i <= ready.len(),
                enumerates(ready@, ready_set(processes@)),
                is_ready(processes@, best),
                best_time == processes@[best].creation_time,
                forall|j: int| i <= j < ready@.len() ==> best < #[trigger] ready@[j],
                forall|k: int|
                    0 <= k < i ==> {
                        ||| best_time < processes@[#[trigger] ready@[k]].creation_time
                        ||| (best_time == processes@[ready@[k]].creation_time && best
                            <= ready@[k])
                    },
            decreases ready.len() - i,
        {
            let pid = ready[i];
            assert(ready@.contains(pid));
            let time = creation_time_of(processes, pid);
            if time < best_time {
                best = pid;
                best_time = time;
            }
            i = i + 1;
        }
        assert(fcfs_pick(processes@, best)) by {
            assert forall|other: ProcessId| is_ready(processes@, other) implies {
                ||| processes@[best].creation_time < processes@[other].creation_time
                ||| (processes@[best].creation_time == processes@[other].creation_time && best
                    <= other)
            } by {
                assert(ready@.contains(other));
            }
        }
        self.switch_to(best);
        Some(best)
    }

    /// Shortest-job-first scheduling.
    fn schedule_sjf(
        &mut self,
        processes: &mut BTreeMap<ProcessId, ProcessControlBlock>,
    ) -> (next: Option<ProcessId>)
        ensures
            final(processes)@ == old(processes)@,
            next is None <==> !any_ready(old(processes)@),
            next matches Some(pid) ==> sjf_pick(old(processes)@, pid),
            next matches Some(pid) ==> final(self)@ == switched_to(old(self)@, pid),
            next is None ==> final(self)@ == old(self)@,
    {
        let ready = ready_pids(processes);
        if ready.len() == 0 {
            assert forall|pid: ProcessId| !is_ready(processes@, pid) by {
                assert(!ready@.contains(pid));
            }
            return None;
        }
        assert(ready@.contains(ready@[0]));
        let mut best: ProcessId = ready[0];
        let mut best_size: usize = memory_usage_of(processes, best);
        let mut i: usize = 1;
        while i < ready.len()
            invariant
                1 <= i <= ready.len(),
                enumerates(ready@, ready_set(processes@)),
                is_ready(processes@, best),
                best_size == processes@[best].memory_usage,
                forall|j: int| i <= j < ready@.len() ==> best < #[trigger] ready@[j],
                forall|k: int|
                    0 <= k < i ==> {
                        ||| best_size < processes@[#[trigger] ready@[k]].memory_usage
                        ||| (best_size == processes@[ready@[k]].memory_usage && best
                            <= ready@[k])
                    },
            decreases ready.len() - i,
        {
            let pid = ready[i];
            assert(ready@.contains(pid));
            let size = memory_usage_of(processes, pid);
            if size < best_size {
                best = pid;
                best_size = size;
            }
            i = i + 1;
        }
        assert(sjf_pick(processes@, best)) by {
            assert forall|other: ProcessId| is_ready(processes@, other) implies {
                ||| processes@[best].memory_usage < processes@[other].memory_usage
                ||| (processes@[best].memory_usage == processes@[other].memory_usage && best
                    <= other)
            } by {
                assert(ready@.contains(other));
            }
        }
        self.switch_to(best);
        Some(best)
    }

    /// Whether the time slice of the current process is used up.
    pub fn should_preempt(&self) -> (preempt: bool)
        ensures
            preempt <==> self@.time_slice_remaining == 0,
    {
        self.time_slice_remaining == 0
    }

    /// Counts one timer tick against the time slice, which never goes below
    /// zero.
    pub fn tick(&mut self)
        ensures
            final(self)@ == (SchedulerStats {
                time_slice_remaining: after_tick(old(self)@.time_slice_remaining),
                ..old(self)@
            }),
    {
        if self.time_slice_remaining > 0 {
            self.time_slice_remaining -= 1;
        }
    }

    /// The process that was scheduled last.
    pub fn get_current_process(&self) -> (current: Option<ProcessId>)
        ensures
            current == self@.current_process,
    {
        self.current_process
    }

    /// Number of switches so far.
    pub fn get_total_switches(&self) -> (switches: u64)
        ensures
            switches == self@.total_switches,
    {
        self.total_switches
    }

    /// Gives the current process a full time slice again.
    pub fn reset_time_slice(&mut self)
        ensures
            final(self)@ == (SchedulerStats { time_slice_remaining: TIME_SLICE, ..old(self)@ }),
    {
        self.time_slice_remaining = TIME_SLICE;
    }

    /// Uses up the time slice, so that the next preemption check asks for
    /// a switch.
    pub fn force_switch(&mut self)
        ensures
            final(self)@ == (SchedulerStats { time_slice_remaining: 0, ..old(self)@ }),
    {
        self.time_slice_remaining = 0;
    }

    /// The scheduler's bookkeeping.
    pub fn get_stats(&self) -> (stats: SchedulerStats)
        ensures
            stats == self@,
    {
        SchedulerStats {
            current_process: self.current_process,
            time_slice_remaining: self.time_slice_remaining,
            total_switches: self.get_total_switches(),
            algorithm: self.scheduling_algorithm,
        }
    }
}

/// The round-robin successor of `current` among the ready processes of the
/// table, if any process is ready.
pub fn round_robin_successor(
    processes: &BTreeMap<ProcessId, ProcessControlBlock>,
    current: Option<ProcessId>,
) -> (next: Option<ProcessId>)
    ensures
        next is None <==> !any_ready(processes@),
        next matches Some(pid) ==> round_robin_pick(processes@, current, pid),
{
    let ready = ready_pids(processes);
    if ready.len() == 0 {
        assert forall|pid: ProcessId| !is_ready(processes@, pid) by {
            assert(!ready@.contains(pid));
        }
        return None;
    }
    assert(ready@.contains(ready@[0]));
    assert(first_ready(processes@, ready@[0])) by {
        assert forall|other: ProcessId| is_ready(processes@, other) implies ready@[0]
            <= other by {
            assert(ready@.contains(other));
        }
    }
    let next_pid = match current {
        Some(current) => {
            match position(&ready, current) {
                Some(index) => {
                    if index + 1 < ready.len() {
                        assert(ready@.contains(ready@[index + 1]));
                        assert(next_ready_after(processes@, current, ready@[index + 1])) by {
                            assert forall|other: ProcessId|
                                is_ready(processes@, other) && current < other implies ready@[index
                                + 1] <= other by {
                                assert(ready@.contains(other));
                            }
                        }
                        ready[index + 1]
                    } else {
                        assert(!any_ready_after(processes@, current)) by {
                            assert forall|other: ProcessId|
                                is_ready(processes@, other) implies other <= current by {
                                assert(ready@.contains(other));
                            }
                        }
                        ready[0]
                    }
                },
                None => {
                    assert(!is_ready(processes@, current));
                    ready[0]
                },
            }
        },
        None => ready[0],
    };
    Some(next_pid)
}

/// Index of `pid` in an ascending list of pids.
fn position(pids: &Vec<ProcessId>, pid: ProcessId) -> (index: Option<usize>)
    requires
        ascending(pids@),
    ensures
        index is None <==> !pids@.contains(pid),
        index matches Some(i) ==> i < pids@.len() && pids@[i as int] == pid,
{
    let mut i: usize = 0;
    while i < pids.len()
        invariant
            0 <= i <= pids.len(),
            forall|k: int| 0 <= k < i ==> pids@[k] != pid,
        decreases pids.len() - i,
    {
        if pids[i] == pid {
            return Some(i);
        }
        i = i + 1;
    }
    None
}

/// Priority level of a process of the table.
fn priority_of(processes: &BTreeMap<ProcessId, ProcessControlBlock>, pid: ProcessId) -> (level: u8)
    requires
        processes@.contains_key(pid),
    ensures
        level == processes@[pid].priority.level(),
{
    match processes.get(&pid) {
        Some(pcb) => pcb.priority.rank(),
        None => 0,
    }
}

/// Creation time of a process of the table.
fn creation_time_of(processes: &BTreeMap<ProcessId, ProcessControlBlock>, pid: ProcessId) -> (time:
    u64)
    requires
        processes@.contains_key(pid),
    ensures
        time == processes@[pid].creation_time,
{
    match processes.get(&pid) {
        Some(pcb) => pcb.creation_time,
        None => 0,
    }
}

/// Memory footprint of a process of the table.
fn memory_usage_of(processes: &BTreeMap<ProcessId, ProcessControlBlock>, pid: ProcessId) -> (size:
    usize)
    requires
        processes@.contains_key(pid),
    ensures
        size == processes@[pid].memory_usage,
{
    match processes.get(&pid) {
        Some(pcb) => pcb.memory_usage,
        None => 0,
    }
}

/// Sets the policy of `scheduler`.
pub fn set_scheduling_algorithm(scheduler: &mut ProcessScheduler, algorithm: SchedulingAlgorithm)
    ensures
        final(scheduler)@ == (SchedulerStats { algorithm, ..old(scheduler)@ }),
{
    scheduler.set_algorithm(algorithm);
}

/// Whether the time slice that `scheduler` counts is used up.
pub fn should_preempt(scheduler: &ProcessScheduler) -> (preempt: bool)
    ensures
        preempt <==> scheduler@.time_slice_remaining == 0,
{
    scheduler.should_preempt()
}

/// Counts one timer tick in `scheduler`.
pub fn tick(scheduler: &mut ProcessScheduler)
    ensures
        final(scheduler)@ == (SchedulerStats {
            time_slice_remaining: after_tick(old(scheduler)@.time_slice_remaining),
            ..old(scheduler)@
        }),
{
    scheduler.tick();
}

/// The process that `scheduler` scheduled last.
pub fn get_current_process(scheduler: &ProcessScheduler) -> (current: Option<ProcessId>)
    ensures
        current == scheduler@.current_process,
{
    scheduler.get_current_process()
}

/// The bookkeeping of `scheduler`.
pub fn get_scheduler_stats(scheduler: &ProcessScheduler) -> (stats: SchedulerStats)
    ensures
        stats == scheduler@,
{
    scheduler.get_stats()
}

/// Uses up the time slice that `scheduler` counts, as a process does when
/// it yields.
pub fn force_context_switch(scheduler: &mut ProcessScheduler)
    ensures
        final(scheduler)@ == (SchedulerStats { time_slice_remaining: 0, ..old(scheduler)@ }),
{
    scheduler.force_switch();
}

/// A policy picks at most one process: the contract of `schedule_next`
/// leaves no choice.
pub proof fn lemma_pick_unique(
    algorithm: SchedulingAlgorithm,
    processes: ProcessMap,
    current: Option<ProcessId>,
    a: ProcessId,
    b: ProcessId,
)
    requires
        picks(algorithm, processes, current, a),
        picks(algorithm, processes, current, b),
    ensures
        a == b,
{
}

/// Only ready processes are picked; in particular a terminated process is
/// never picked, whatever the policy and whoever ran last.
pub proof fn lemma_only_ready_is_picked(
    algorithm: SchedulingAlgorithm,
    processes: ProcessMap,
    current: Option<ProcessId>,
    pid: ProcessId,
)
    requires
        picks(algorithm, processes, current, pid),
    ensures
        is_ready(processes, pid),
        processes[pid].state != ProcessState::Terminated,
{
}

/// Round robin takes turns: a ready process that was scheduled last is not
/// picked again while another process is ready.
pub proof fn lemma_round_robin_moves_on(
    processes: ProcessMap,
    current: ProcessId,
    other: ProcessId,
    pid: ProcessId,
)
    requires
        is_ready(processes, current),
        is_ready(processes, other),
        other != current,
        round_robin_pick(processes, Some(current), pid),
    ensures
        pid != current,
{
    if any_ready_after(processes, current) {
    } else {
        assert(other < current);
    }
}

/// After `ticks` ticks a time-slice counter is `ticks` lower, and zero once
/// it is used up.
pub proof fn lemma_after_ticks(remaining: u64, ticks: nat)
    ensures
        after_ticks(remaining, ticks) == if ticks <= remaining {
            remaining - ticks
        } else {
            0
        },
    decreases ticks,
{
    if ticks > 0 {
        lemma_after_ticks(remaining, (ticks - 1) as nat);
    }
}

/// After a process was scheduled, preemption is due at tick number
/// `TIME_SLICE` and not before: counted from the bookkeeping right after
/// the switch to `pid`, the counter is zero after `ticks` ticks exactly
/// when `ticks` is at least `TIME_SLICE`.
pub proof fn lemma_preempt_after_time_slice(before: SchedulerStats, pid: ProcessId, ticks: nat)
    ensures
        after_ticks(switched_to(before, pid).time_slice_remaining, ticks) == 0 <==> ticks
            >= TIME_SLICE,
{
    lemma_after_ticks(TIME_SLICE, ticks);
}

} // verus!
