//! The process service: creates, schedules, blocks and terminates
//! processes, and switches the CPU's context along with its decisions.

use crate::addr::{canonical_form, lemma_low_half_canonical, virt_addr};
use crate::ordered::{enumerates, keys_in_order};
use crate::process::context::{
    saved, switch_outcome, ContextManager, ContextState, KERNEL_STACK_BASE,
};
use crate::process::pcb::{
    is_ready, is_within, list_table, lists_processes, memory_apart, place_process, placed_after,
    placement_fits, preempted, process_added, set_process_state, terminated_pcb,
    with_cpu_time_added, with_process_state, with_state, CpuRegisters, ProcessControlBlock,
    ProcessError, ProcessId, ProcessMap, ProcessPriority, ProcessState, USER_HEAP_BASE,
    USER_STACK_TOP,
};
use crate::process::scheduler::{any_ready, round_robin_pick, round_robin_successor};
use std::collections::BTreeMap;
use vstd::prelude::*;

verus! {

/// Pid of the kernel's own process.
pub const KERNEL_PID: ProcessId = 0;

/// Stack size of the kernel process.
pub const KERNEL_STACK_SIZE: usize = 0x10000;

/// Heap size of the kernel process.
pub const KERNEL_HEAP_SIZE: usize = 0x1000000;

/// What a process service stands for.
pub struct ServiceState {
    /// The control blocks, by pid.
    pub processes: ProcessMap,
    /// The process that is running, if any.
    pub current_process: Option<ProcessId>,
    /// The pid that the next process will get.
    pub next_pid: ProcessId,
    /// Where the stacks begin: the next stack is placed just below.
    pub stack_floor: u64,
    /// Where the heaps end: the next heap is placed here.
    pub heap_ceiling: u64,
}

/// Lower end of the memory for the heaps of processes: the kernel's own
/// heap lies below.
pub open spec fn process_heap_base() -> u64 {
    (USER_HEAP_BASE + KERNEL_HEAP_SIZE) as u64
}

impl ServiceState {
    /// What the invariant says of the control block of `pid`.
    pub open spec fn entry_wf(self, pid: ProcessId) -> bool {
        &&& pid < self.next_pid
        &&& self.processes[pid].pid == pid
        &&& (pid == KERNEL_PID ==> is_kernel_placed(self.processes[pid]))
        &&& (pid != KERNEL_PID ==> is_within(
            self.processes[pid],
            process_heap_base(),
            self.heap_ceiling,
            self.stack_floor,
        ))
        &&& (self.processes[pid].exit_code is Some <==> self.processes[pid].state
            == ProcessState::Terminated)
        &&& (self.processes[pid].state == ProcessState::Running ==> self.current_process
            == Some(pid))
    }

    /// The invariant of a process service.
    ///
    /// There are finitely many control blocks.  Each is filed under its own
    /// pid, which is below the next pid to be issued.  The kernel's own
    /// process has the kernel's stack and the heap at the heap base.  Of
    /// the others the heaps lie below the heap ceiling and the stacks above
    /// the stack floor, the ceiling is not above the floor, and a process
    /// with a larger pid was placed after one with a smaller pid.  A
    /// process has an exit code exactly when it is terminated.  The current
    /// process exists, and it is the one process that is running.
    pub open spec fn wf(self) -> bool {
        &&& self.next_pid >= 1
        &&& self.processes.dom().finite()
        &&& process_heap_base() <= self.heap_ceiling <= self.stack_floor <= USER_STACK_TOP
        &&& forall|pid: ProcessId| #[trigger] self.processes.contains_key(pid) ==> self.entry_wf(pid)
        &&& forall|p: ProcessId, q: ProcessId|
            #[trigger] self.processes.contains_key(p) && #[trigger] self.processes.contains_key(q)
                && KERNEL_PID < p < q ==> placed_after(self.processes[p], self.processes[q])
        &&& self.current_process matches Some(pid) ==> {
            &&& self.processes.contains_key(pid)
            &&& self.processes[pid].state == ProcessState::Running
        }
    }
}

/// The control block holds the placement of the kernel's own process: the
/// kernel stack, and the heap at the heap base, below the heaps of all
/// other processes.
pub open spec fn is_kernel_placed(pcb: ProcessControlBlock) -> bool {
    &&& pcb.stack_pointer == KERNEL_STACK_BASE
    &&& pcb.stack_size == KERNEL_STACK_SIZE
    &&& pcb.heap_start == USER_HEAP_BASE
    &&& pcb.heap_size == KERNEL_HEAP_SIZE
}

/// Process management service: coordinates process creation, scheduling
/// and context switching.
pub struct ProcessService {
    processes: BTreeMap<ProcessId, ProcessControlBlock>,
    current_process: Option<ProcessId>,
    next_pid: ProcessId,
    stack_floor: u64,
    heap_ceiling: u64,
}

impl View for ProcessService {
    type V = ServiceState;

    closed spec fn view(&self) -> ServiceState {
        ServiceState {
            processes: self.processes@,
            current_process: self.current_process,
            next_pid: self.next_pid,
            stack_floor: self.stack_floor,
            heap_ceiling: self.heap_ceiling,
        }
    }
}

/// `pcb` is the control block of the kernel's own process: pid 0, running
/// at critical priority on the kernel stack.
pub open spec fn is_kernel_pcb(pcb: ProcessControlBlock) -> bool {
    &&& pcb.pid == KERNEL_PID
    &&& pcb.parent_pid is None
    &&& pcb.name@ == seq!['k', 'e', 'r', 'n', 'e', 'l']
    &&& pcb.state == ProcessState::Running
    &&& pcb.priority == ProcessPriority::Critical
    &&& pcb.registers == CpuRegisters::reset()
    &&& pcb.stack_pointer == KERNEL_STACK_BASE
    &&& pcb.stack_size == KERNEL_STACK_SIZE
    &&& pcb.heap_start == USER_HEAP_BASE
    &&& pcb.heap_size == KERNEL_HEAP_SIZE
    &&& pcb.page_table is None
    &&& pcb.capabilities@.len() == 0
    &&& pcb.open_files@.len() == 0
    &&& pcb.working_directory@ == seq!['/']
    &&& pcb.exit_code is None
    &&& pcb.creation_time == 0
    &&& pcb.cpu_time == 0
    &&& pcb.memory_usage == KERNEL_STACK_SIZE
}

/// What `init` does to a process service: the kernel's own process is
/// there, new, and current; a process that was current is ready again.
pub open spec fn init_outcome(before: ServiceState, after: ServiceState) -> bool {
    &&& is_kernel_pcb(after.processes[KERNEL_PID])
    &&& after == (ServiceState {
        processes: preempted(before.processes, before.current_process).insert(
            KERNEL_PID,
            after.processes[KERNEL_PID],
        ),
        current_process: Some(KERNEL_PID),
        ..before
    })
}

/// What a call of `create_process` returns: the pid that was next, or
/// `InvalidProcessId` when no pid is left, or else `InsufficientMemory`
/// when the memory that is left cannot hold the stack and the heap.
pub open spec fn create_result(
    before: ServiceState,
    stack_size: usize,
    heap_size: usize,
) -> Result<ProcessId, ProcessError> {
    if before.next_pid == u64::MAX {
        Err(ProcessError::InvalidProcessId)
    } else if !placement_fits(before.stack_floor, before.heap_ceiling, stack_size, heap_size) {
        Err(ProcessError::InsufficientMemory)
    } else {
        Ok(before.next_pid)
    }
}

/// What `create_process` does to a process service.
///
/// On success the process has the pid that was next and a new control
/// block with the current process as parent; its stack lies just below
/// the stack floor and its heap at the heap ceiling, which move
/// accordingly.  A failed call changes nothing.
pub open spec fn create_outcome(
    before: ServiceState,
    after: ServiceState,
    name: Seq<char>,
    priority: ProcessPriority,
    stack_size: usize,
    heap_size: usize,
) -> bool {
    match create_result(before, stack_size, heap_size) {
        Ok(pid) => {
            &&& process_added(
                before.processes,
                after.processes,
                pid,
                before.current_process,
                name,
                priority,
                (before.stack_floor - stack_size) as u64,
                stack_size,
                before.heap_ceiling,
                heap_size,
            )
            &&& after == (ServiceState {
                processes: after.processes,
                next_pid: (pid + 1) as u64,
                stack_floor: (before.stack_floor - stack_size) as u64,
                heap_ceiling: (before.heap_ceiling + heap_size) as u64,
                ..before
            })
        },
        Err(_) => after == before,
    }
}

/// Outcome of terminating `pid` with `exit_code`.
pub open spec fn terminate_outcome(before: ServiceState, pid: ProcessId, exit_code: i32) -> (
    ServiceState,
    Result<(), ProcessError>,
) {
    if before.processes.contains_key(pid) {
        (
            ServiceState {
                processes: before.processes.insert(
                    pid,
                    terminated_pcb(before.processes[pid], exit_code),
                ),
                current_process: if before.current_process == Some(pid) {
                    None
                } else {
                    before.current_process
                },
                ..before
            },
            Ok(()),
        )
    } else {
        (before, Err(ProcessError::ProcessNotFound))
    }
}

/// Outcome of blocking the current process.
pub open spec fn block_current_outcome(before: ServiceState) -> (
    ServiceState,
    Result<(), ProcessError>,
) {
    match before.current_process {
        Some(pid) => (
            ServiceState {
                processes: before.processes.insert(
                    pid,
                    with_state(before.processes[pid], ProcessState::Blocked),
                ),
                current_process: None,
                ..before
            },
            Ok(()),
        ),
        None => (before, Err(ProcessError::NoCurrentProcess)),
    }
}

/// Outcome of unblocking `pid`: only a blocked process changes.
pub open spec fn unblock_outcome(before: ServiceState, pid: ProcessId) -> (
    ServiceState,
    Result<(), ProcessError>,
) {
    if !before.processes.contains_key(pid) {
        (before, Err(ProcessError::ProcessNotFound))
    } else if before.processes[pid].state != ProcessState::Blocked {
        (before, Err(ProcessError::ProcessNotBlocked))
    } else {
        (
            ServiceState {
                processes: before.processes.insert(
                    pid,
                    with_state(before.processes[pid], ProcessState::Ready),
                ),
                ..before
            },
            Ok(()),
        )
    }
}

/// Outcome of setting the priority of `pid`.
pub open spec fn set_priority_outcome(
    before: ServiceState,
    pid: ProcessId,
    priority: ProcessPriority,
) -> (ServiceState, Result<(), ProcessError>) {
    if before.processes.contains_key(pid) {
        (
            ServiceState {
                processes: before.processes.insert(
                    pid,
                    ProcessControlBlock { priority, ..before.processes[pid] },
                ),
                ..before
            },
            Ok(()),
        )
    } else {
        (before, Err(ProcessError::ProcessNotFound))
    }
}

/// What `schedule_next` does to a process service and the context manager.
///
/// With no ready process nothing changes and nothing is picked.  Otherwise
/// the current process, if there is one, leaves the CPU and is ready
/// again; its round-robin successor among the ready processes is picked
/// and marked running; the live registers are saved into the process that
/// was current and those of the picked process are restored; and the
/// picked process is current in the service and in the context manager.
pub open spec fn schedule_outcome(
    before: ServiceState,
    context_before: ContextState,
    after: ServiceState,
    context_after: ContextState,
    next: Option<ProcessId>,
) -> bool {
    match next {
        None => !any_ready(before.processes) && after == before && context_after
            == context_before,
        Some(pid) => {
            let ready_again = preempted(before.processes, before.current_process);
            let marked = with_process_state(ready_again, pid, ProcessState::Running);
            let switched = switch_outcome(context_before, marked, before.current_process, pid);
            &&& any_ready(before.processes)
            &&& round_robin_pick(ready_again, before.current_process, pid)
            &&& switched.2 is Ok
            &&& context_after == switched.0
            &&& after == (ServiceState {
                processes: switched.1,
                current_process: Some(pid),
                ..before
            })
        },
    }
}

/// Statistics of one process.
#[derive(Debug, Clone)]
pub struct ProcessStats {
    pub pid: ProcessId,
    pub name: String,
    pub state: ProcessState,
    pub priority: ProcessPriority,
    pub cpu_time: u64,
    pub memory_usage: usize,
    pub creation_time: u64,
}

/// Statistics of the whole system: how many processes there are, and how
/// many in each state.
#[derive(Debug, Clone)]
pub struct SystemStats {
    pub total_processes: usize,
    pub running_processes: usize,
    pub ready_processes: usize,
    pub blocked_processes: usize,
    pub terminated_processes: usize,
    pub current_process: Option<ProcessId>,
}

/// `stats` describes the control block `pcb`.
pub open spec fn describes(stats: ProcessStats, pcb: ProcessControlBlock) -> bool {
    &&& stats.pid == pcb.pid
    &&& stats.name@ == pcb.name@
    &&& stats.state == pcb.state
    &&& stats.priority == pcb.priority
    &&& stats.cpu_time == pcb.cpu_time
    &&& stats.memory_usage == pcb.memory_usage
    &&& stats.creation_time == pcb.creation_time
}

/// The pids of the processes that are in `state`.
pub open spec fn pids_in_state(processes: ProcessMap, state: ProcessState) -> Set<ProcessId> {
    Set::new(|pid: ProcessId| processes.contains_key(pid) && processes[pid].state == state)
}

/// How many of the first `n` pids of `pids` are in `state`.
spec fn count_in_state(
    pids: Seq<ProcessId>,
    n: int,
    processes: ProcessMap,
    state: ProcessState,
) -> nat
    decreases n,
{
    if n <= 0 {
        0
    } else if processes[pids[n - 1]].state == state {
        count_in_state(pids, n - 1, processes, state) + 1
    } else {
        count_in_state(pids, n - 1, processes, state)
    }
}

/// The pids in `state` that come before position `n` of the enumeration
/// `pids`.
spec fn in_state_before(
    pids: Seq<ProcessId>,
    n: int,
    processes: ProcessMap,
    state: ProcessState,
) -> Set<ProcessId> {
    Set::new(
        |pid: ProcessId|
            pids_in_state(processes, state).contains(pid) && (n < pids.len() ==> pid < pids[n]),
    )
}

/// Counting along an enumeration of the pids gives the size of the set of
/// pids in that state.
proof fn lemma_count_in_state(
    pids: Seq<ProcessId>,
    n: int,
    processes: ProcessMap,
    state: ProcessState,
)
    requires
        enumerates(pids, processes.dom()),
        0 <= n <= pids.len(),
    ensures
        in_state_before(pids, n, processes, state).finite(),
        count_in_state(pids, n, processes, state) == in_state_before(
            pids,
            n,
            processes,
            state,
        ).len(),
    decreases n,
{
    let here = in_state_before(pids, n, processes, state);
    if n == 0 {
        assert forall|pid: ProcessId| !(#[trigger] here.contains(pid)) by {
            if pids_in_state(processes, state).contains(pid) {
                assert(pids.contains(pid));
                let k = choose|k: int| 0 <= k < pids.len() && pids[k] == pid;
                assert(pids[0] <= pids[k]);
            }
        }
        assert(here =~= Set::<ProcessId>::empty());
    } else {
        lemma_count_in_state(pids, n - 1, processes, state);
        let before = in_state_before(pids, n - 1, processes, state);
        let last = pids[n - 1];
        assert(pids.contains(last));
        assert forall|pid: ProcessId| #[trigger]
            here.remove(last).contains(pid) <==> before.contains(pid) by {
            if pids_in_state(processes, state).contains(pid) {
                assert(pids.contains(pid));
                let k = choose|k: int| 0 <= k < pids.len() && pids[k] == pid;
                if k < n - 1 {
                    assert(pids[k] < pids[n - 1]);
                } else if k > n - 1 {
                    assert(pids[n - 1] < pids[k]);
                    if n < pids.len() {
                        assert(pids[n] <= pids[k]);
                    }
                }
            }
        }
        assert(here.remove(last) =~= before);
        if processes[last].state == state {
            assert(here.contains(last));
            assert(here =~= before.insert(last));
        } else {
            assert(!here.contains(last));
            assert(here =~= before);
        }
    }
}

/// Number of processes of the table that are in `state`.
fn count_state(processes: &BTreeMap<ProcessId, ProcessControlBlock>, state: ProcessState) -> (count:
    usize)
    ensures
        count == pids_in_state(processes@, state).len(),
{
    let pids = keys_in_order(processes);
    let mut count: usize = 0;
    let mut i: usize = 0;
    while i < pids.len()
        invariant
            0 <= i <= pids.len(),
            enumerates(pids@, processes@.dom()),
            count == count_in_state(pids@, i as int, processes@, state),
            count <= i,
        decreases pids.len() - i,
    {
        let pid = pids[i];
        assert(pids@.contains(pid));
        match processes.get(&pid) {
            Some(pcb) => {
                if pcb.state == state {
                    count = count + 1;
                }
            },
            None => {},
        }
        i = i + 1;
    }
    proof {
        lemma_count_in_state(pids@, pids@.len() as int, processes@, state);
        assert(in_state_before(pids@, pids@.len() as int, processes@, state)
            =~= pids_in_state(processes@, state));
    }
    count
}

impl ProcessService {
    /// The invariant of the service; see `ServiceState::wf`.
    pub open spec fn wf(&self) -> bool {
        self@.wf()
    }

    /// A service without processes.  The first process will get pid 1, and
    /// all the memory for processes is free.
    pub fn new() -> (service: Self)
        ensures
            service.wf(),
            service@ == (ServiceState {
                processes: Map::empty(),
                current_process: None,
                next_pid: 1,
                stack_floor: USER_STACK_TOP,
                heap_ceiling: process_heap_base(),
            }),
    {
        ProcessService {
            processes: BTreeMap::new(),
            current_process: None,
            next_pid: 1,
            stack_floor: USER_STACK_TOP,
            heap_ceiling: USER_HEAP_BASE + KERNEL_HEAP_SIZE as u64,
        }
    }

    /// Sets up the kernel's own process, pid 0, and makes it current.  A
    /// process that was current is ready again.
    pub fn init(&mut self)
        requires
            old(self).wf(),
        ensures
            final(self).wf(),
            init_outcome(old(self)@, final(self)@),
    {
        if let Some(previous) = self.current_process {
            set_process_state(&mut self.processes, previous, ProcessState::Ready);
        }
        let name = "kernel".to_owned();
        let working_directory = "/".to_owned();
        proof {
            reveal_strlit("kernel");
            reveal_strlit("/");
            assert(name@ =~= seq!['k', 'e', 'r', 'n', 'e', 'l']);
            assert(working_directory@ =~= seq!['/']);
            assert(canonical_form(KERNEL_STACK_BASE) == Some(KERNEL_STACK_BASE)) by {
                assert(0xFFFF_8000_0000_0000u64 >> 47 == 0x1ffff) by (bit_vector);
            }
            lemma_low_half_canonical(USER_HEAP_BASE);
        }
        let stack_pointer = match virt_addr(KERNEL_STACK_BASE) {
            Some(addr) => addr,
            None => KERNEL_STACK_BASE,
        };
        let heap_start = match virt_addr(USER_HEAP_BASE) {
            Some(addr) => addr,
            None => USER_HEAP_BASE,
        };
        let kernel_pcb = ProcessControlBlock {
            pid: KERNEL_PID,
            parent_pid: None,
            name,
            state: ProcessState::Running,
            priority: ProcessPriority::Critical,
            registers: CpuRegisters::default(),
            stack_pointer,
            stack_size: KERNEL_STACK_SIZE,
            heap_start,
            heap_size: KERNEL_HEAP_SIZE,
            page_table: None,
            capabilities: Vec::new(),
            open_files: Vec::new(),
            working_directory,
            exit_code: None,
            creation_time: 0,
            cpu_time: 0,
            memory_usage: KERNEL_STACK_SIZE,
        };
        self.processes.insert(KERNEL_PID, kernel_pcb);
        self.current_process = Some(KERNEL_PID);
        assert(self@.processes == preempted(
            old(self)@.processes,
            old(self)@.current_process,
        ).insert(KERNEL_PID, kernel_pcb));
    }

    /// Creates a process.
    ///
    /// The process gets the next unused pid, the current process as parent,
    /// a stack just below the stacks there are and a heap just above the
    /// heaps there are, and a new control block.  The call fails, and
    /// changes nothing, only when the pids are used up (`InvalidProcessId`)
    /// or when the memory that is left cannot hold the stack and the heap
    /// (`InsufficientMemory`).
    pub fn create_process(
        &mut self,
        name: String,
        priority: ProcessPriority,
        stack_size: usize,
        heap_size: usize,
    ) -> (result: Result<ProcessId, ProcessError>)
        requires
            old(self).wf(),
        ensures
            final(self).wf(),
            result == create_result(old(self)@, stack_size, heap_size),
            create_outcome(old(self)@, final(self)@, name@, priority, stack_size, heap_size),
    {
        if self.next_pid == u64::MAX {
            return Err(ProcessError::InvalidProcessId);
        }
        let pid = self.next_pid;
        let (stack_pointer, heap_start) = match place_process(
            self.stack_floor,
            self.heap_ceiling,
            stack_size,
            heap_size,
        ) {
            Some(addresses) => addresses,
            None => {
                return Err(ProcessError::InsufficientMemory);
            },
        };
        let memory_usage = stack_size + heap_size;
        self.stack_floor = stack_pointer;
        self.heap_ceiling = heap_start + heap_size as u64;
        self.next_pid = pid + 1;
        let working_directory = "/".to_owned();
        proof {
            reveal_strlit("/");
            assert(working_directory@ =~= seq!['/']);
        }
        let pcb = ProcessControlBlock {
            pid,
            parent_pid: self.current_process,
            name,
            state: ProcessState::Ready,
            priority,
            registers: CpuRegisters::default(),
            stack_pointer,
            stack_size,
            heap_start,
            heap_size,
            page_table: None,
            capabilities: Vec::new(),
            open_files: Vec::new(),
            working_directory,
            exit_code: None,
            creation_time: 0,
            cpu_time: 0,
            memory_usage,
        };
        self.processes.insert(pid, pcb);
        assert(self@.processes == old(self)@.processes.insert(pid, pcb));
        Ok(pid)
    }

    /// Terminates a process: records the exit code and clears the current
    /// process if it was the one.  The control block stays in the service.
    /// Terminating a terminated process again replaces its exit code.
    pub fn terminate_process(&mut self, pid: ProcessId, exit_code: i32) -> (result: Result<
        (),
        ProcessError,
    >)
        requires
            old(self).wf(),
        ensures
            final(self).wf(),
            final(self)@ == terminate_outcome(old(self)@, pid, exit_code).0,
            result == terminate_outcome(old(self)@, pid, exit_code).1,
    {
        match self.processes.remove(&pid) {
            Some(mut pcb) => {
                pcb.state = ProcessState::Terminated;
                pcb.exit_code = Some(exit_code);
                self.processes.insert(pid, pcb);
                if self.current_process == Some(pid) {
                    self.current_process = None;
                }
                assert(self@.processes == old(self)@.processes.insert(
                    pid,
                    terminated_pcb(old(self)@.processes[pid], exit_code),
                ));
                Ok(())
            },
            None => {
                assert(self@.processes == old(self)@.processes);
                Err(ProcessError::ProcessNotFound)
            },
        }
    }

    /// Schedules the next process, round robin over the ready processes,
    /// and switches the context to it.  The process that was running is
    /// ready again and takes its turn with the others.
    pub fn schedule_next(&mut self, context: &mut ContextManager) -> (next: Option<ProcessId>)
        requires
            old(self).wf(),
        ensures
            final(self).wf(),
            schedule_outcome(old(self)@, old(context)@, final(self)@, final(context)@, next),
    {
        if round_robin_successor(&self.processes, self.current_process).is_none() {
            return None;
        }
        let previous = self.current_process;
        if let Some(pid) = previous {
            set_process_state(&mut self.processes, pid, ProcessState::Ready);
        }
        proof {
            let ready = choose|pid: ProcessId| is_ready(old(self)@.processes, pid);
            assert(is_ready(self@.processes, ready));
        }
        let next_pid = match round_robin_successor(&self.processes, previous) {
            Some(pid) => pid,
            None => {
                return None;
            },
        };
        set_process_state(&mut self.processes, next_pid, ProcessState::Running);
        match context.context_switch(previous, next_pid, &mut self.processes) {
            Ok(()) => {},
            Err(_) => {
                return None;
            },
        }
        self.current_process = Some(next_pid);
        proof {
            lemma_step_keeps_wf(
                old(self)@,
                ServiceOp::Schedule {
                    context_before: old(context)@,
                    context_after: context@,
                    next: Some(next_pid),
                },
                self@,
            );
        }
        Some(next_pid)
    }

    /// Blocks the current process: it leaves the CPU and is marked blocked.
    pub fn block_current_process(&mut self) -> (result: Result<(), ProcessError>)
        requires
            old(self).wf(),
        ensures
            final(self).wf(),
            final(self)@ == block_current_outcome(old(self)@).0,
            result == block_current_outcome(old(self)@).1,
    {
        match self.current_process {
            Some(pid) => {
                match self.processes.remove(&pid) {
                    Some(mut pcb) => {
                        pcb.state = ProcessState::Blocked;
                        self.processes.insert(pid, pcb);
                        self.current_process = None;
                        assert(self@.processes == old(self)@.processes.insert(
                            pid,
                            with_state(old(self)@.processes[pid], ProcessState::Blocked),
                        ));
                        Ok(())
                    },
                    None => Err(ProcessError::ProcessNotFound),
                }
            },
            None => Err(ProcessError::NoCurrentProcess),
        }
    }

    /// Makes a blocked process ready again.  A process in any other state
    /// is left as it is.
    pub fn unblock_process(&mut self, pid: ProcessId) -> (result: Result<(), ProcessError>)
        requires
            old(self).wf(),
        ensures
            final(self).wf(),
            final(self)@ == unblock_outcome(old(self)@, pid).0,
            result == unblock_outcome(old(self)@, pid).1,
    {
        match self.processes.remove(&pid) {
            Some(mut pcb) => {
                if pcb.state == ProcessState::Blocked {
                    pcb.state = ProcessState::Ready;
                    self.processes.insert(pid, pcb);
                    assert(self@.processes == old(self)@.processes.insert(
                        pid,
                        with_state(old(self)@.processes[pid], ProcessState::Ready),
                    ));
                    Ok(())
                } else {
                    self.processes.insert(pid, pcb);
                    assert(self@.processes =~= old(self)@.processes);
                    Err(ProcessError::ProcessNotBlocked)
                }
            },
            None => {
                assert(self@.processes == old(self)@.processes);
                Err(ProcessError::ProcessNotFound)
            },
        }
    }

    /// The control block of a process.
    pub fn get_process(&self, pid: ProcessId) -> (pcb: Option<&ProcessControlBlock>)
        ensures
            match pcb {
                Some(pcb) => self@.processes.contains_key(pid) && *pcb == self@.processes[pid],
                None => !self@.processes.contains_key(pid),
            },
    {
        self.processes.get(&pid)
    }

    /// The pid of the current process.
    pub fn get_current_process(&self) -> (current: Option<ProcessId>)
        ensures
            current == self@.current_process,
    {
        self.current_process
    }

    /// Pid, name and state of every process, in pid order.
    pub fn list_processes(&self) -> (listing: Vec<(ProcessId, String, ProcessState)>)
        ensures
            lists_processes(listing@, self@.processes),
    {
        list_table(&self.processes)
    }

    /// Number of processes in the service, terminated ones included.
    pub fn get_process_count(&self) -> (count: usize)
        ensures
            count == self@.processes.dom().len(),
    {
        self.processes.len()
    }

    /// Adds `time_delta` to the CPU time of a process.  An unknown pid is
    /// ignored.
    pub fn update_cpu_time(&mut self, pid: ProcessId, time_delta: u64)
        requires
            old(self).wf(),
            old(self)@.processes.contains_key(pid) ==> old(self)@.processes[pid].cpu_time
                + time_delta <= u64::MAX,
        ensures
            final(self).wf(),
            final(self)@ == (ServiceState {
                processes: with_cpu_time_added(old(self)@.processes, pid, time_delta),
                ..old(self)@
            }),
    {
        match self.processes.remove(&pid) {
            Some(mut pcb) => {
                pcb.cpu_time = pcb.cpu_time + time_delta;
                self.processes.insert(pid, pcb);
                assert(self@.processes == with_cpu_time_added(
                    old(self)@.processes,
                    pid,
                    time_delta,
                ));
            },
            None => {
                assert(self@.processes == old(self)@.processes);
            },
        }
    }

    /// Sets the priority of a process.
    pub fn set_priority(&mut self, pid: ProcessId, priority: ProcessPriority) -> (result: Result<
        (),
        ProcessError,
    >)
        requires
            old(self).wf(),
        ensures
            final(self).wf(),
            final(self)@ == set_priority_outcome(old(self)@, pid, priority).0,
            result == set_priority_outcome(old(self)@, pid, priority).1,
    {
        match self.processes.remove(&pid) {
            Some(mut pcb) => {
                pcb.priority = priority;
                self.processes.insert(pid, pcb);
                assert(self@.processes == old(self)@.processes.insert(
                    pid,
                    ProcessControlBlock { priority, ..old(self)@.processes[pid] },
                ));
                Ok(())
            },
            None => {
                assert(self@.processes == old(self)@.processes);
                Err(ProcessError::ProcessNotFound)
            },
        }
    }

    /// Statistics of one process, if it exists.
    pub fn get_process_stats(&self, pid: ProcessId) -> (stats: Option<ProcessStats>)
        ensures
            stats is Some <==> self@.processes.contains_key(pid),
            stats matches Some(s) ==> describes(s, self@.processes[pid]),
    {
        match self.processes.get(&pid) {
            Some(pcb) => Some(
                ProcessStats {
                    pid: pcb.pid,
                    name: pcb.name.clone(),
                    state: pcb.state,
                    priority: pcb.priority,
                    cpu_time: pcb.cpu_time,
                    memory_usage: pcb.memory_usage,
                    creation_time: pcb.creation_time,
                },
            ),
            None => None,
        }
    }

    /// Statistics of the whole system.
    pub fn get_system_stats(&self) -> (stats: SystemStats)
        ensures
            stats.total_processes == self@.processes.dom().len(),
            stats.running_processes == pids_in_state(self@.processes, ProcessState::Running).len(),
            stats.ready_processes == pids_in_state(self@.processes, ProcessState::Ready).len(),
            stats.blocked_processes == pids_in_state(self@.processes, ProcessState::Blocked).len(),
            stats.terminated_processes == pids_in_state(
                self@.processes,
                ProcessState::Terminated,
            ).len(),
            stats.current_process == self@.current_process,
    {
        SystemStats {
            total_processes: self.processes.len(),
            running_processes: count_state(&self.processes, ProcessState::Running),
            ready_processes: count_state(&self.processes, ProcessState::Ready),
            blocked_processes: count_state(&self.processes, ProcessState::Blocked),
            terminated_processes: count_state(&self.processes, ProcessState::Terminated),
            current_process: self.current_process,
        }
    }
}

/// Sets up the kernel's own process in `service`; see
/// `ProcessService::init`.
pub fn init_process_service(service: &mut ProcessService)
    requires
        old(service).wf(),
    ensures
        final(service).wf(),
        init_outcome(old(service)@, final(service)@),
{
    service.init();
}

/// Creates a process in `service`; see `ProcessService::create_process`.
pub fn create_process(
    service: &mut ProcessService,
    name: String,
    priority: ProcessPriority,
    stack_size: usize,
    heap_size: usize,
) -> (result: Result<ProcessId, ProcessError>)
    requires
        old(service).wf(),
    ensures
        final(service).wf(),
        result == create_result(old(service)@, stack_size, heap_size),
        create_outcome(old(service)@, final(service)@, name@, priority, stack_size, heap_size),
{
    service.create_process(name, priority, stack_size, heap_size)
}

/// Terminates a process of `service`; see
/// `ProcessService::terminate_process`.
pub fn terminate_process(service: &mut ProcessService, pid: ProcessId, exit_code: i32) -> (result:
    Result<(), ProcessError>)
    requires
        old(service).wf(),
    ensures
        final(service).wf(),
        final(service)@ == terminate_outcome(old(service)@, pid, exit_code).0,
        result == terminate_outcome(old(service)@, pid, exit_code).1,
{
    service.terminate_process(pid, exit_code)
}

/// Schedules the next process of `service` and switches `context` to it;
/// see `ProcessService::schedule_next`.
pub fn schedule_next_process(service: &mut ProcessService, context: &mut ContextManager) -> (next:
    Option<ProcessId>)
    requires
        old(service).wf(),
    ensures
        final(service).wf(),
        schedule_outcome(old(service)@, old(context)@, final(service)@, final(context)@, next),
{
    service.schedule_next(context)
}

/// Blocks the current process of `service`; see
/// `ProcessService::block_current_process`.
pub fn block_current_process(service: &mut ProcessService) -> (result: Result<(), ProcessError>)
    requires
        old(service).wf(),
    ensures
        final(service).wf(),
        final(service)@ == block_current_outcome(old(service)@).0,
        result == block_current_outcome(old(service)@).1,
{
    service.block_current_process()
}

/// Makes a blocked process of `service` ready again; see
/// `ProcessService::unblock_process`.
pub fn unblock_process(service: &mut ProcessService, pid: ProcessId) -> (result: Result<
    (),
    ProcessError,
>)
    requires
        old(service).wf(),
    ensures
        final(service).wf(),
        final(service)@ == unblock_outcome(old(service)@, pid).0,
        result == unblock_outcome(old(service)@, pid).1,
{
    service.unblock_process(pid)
}

/// The pid of the current process of `service`.
pub fn get_current_process(service: &ProcessService) -> (current: Option<ProcessId>)
    ensures
        current == service@.current_process,
{
    service.get_current_process()
}

/// Pid, name and state of every process of `service`, in pid order.
pub fn list_processes(service: &ProcessService) -> (listing: Vec<
    (ProcessId, String, ProcessState),
>)
    ensures
        lists_processes(listing@, service@.processes),
{
    service.list_processes()
}

/// Number of processes in `service`, terminated ones included.
pub fn get_process_count(service: &ProcessService) -> (count: usize)
    ensures
        count == service@.processes.dom().len(),
{
    service.get_process_count()
}

/// Sets the priority of a process of `service`.
pub fn set_process_priority(
    service: &mut ProcessService,
    pid: ProcessId,
    priority: ProcessPriority,
) -> (result: Result<(), ProcessError>)
    requires
        old(service).wf(),
    ensures
        final(service).wf(),
        final(service)@ == set_priority_outcome(old(service)@, pid, priority).0,
        result == set_priority_outcome(old(service)@, pid, priority).1,
{
    service.set_priority(pid, priority)
}

/// Statistics of one process of `service`, if it exists.
pub fn get_process_stats(service: &ProcessService, pid: ProcessId) -> (stats: Option<ProcessStats>)
    ensures
        stats is Some <==> service@.processes.contains_key(pid),
        stats matches Some(s) ==> describes(s, service@.processes[pid]),
{
    service.get_process_stats(pid)
}

/// Statistics of the whole system that `service` manages.
pub fn get_system_stats(service: &ProcessService) -> (stats: SystemStats)
    ensures
        stats.total_processes == service@.processes.dom().len(),
        stats.running_processes == pids_in_state(service@.processes, ProcessState::Running).len(),
        stats.ready_processes == pids_in_state(service@.processes, ProcessState::Ready).len(),
        stats.blocked_processes == pids_in_state(service@.processes, ProcessState::Blocked).len(),
        stats.terminated_processes == pids_in_state(
            service@.processes,
            ProcessState::Terminated,
        ).len(),
        stats.current_process == service@.current_process,
{
    service.get_system_stats()
}

/// One operation of the process service, with its arguments.
pub enum ServiceOp {
    /// `create_process` with this name, priority, stack size and heap size.
    Create { name: Seq<char>, priority: ProcessPriority, stack_size: usize, heap_size: usize },
    /// `terminate_process` of this pid with this exit code.
    Terminate { pid: ProcessId, exit_code: i32 },
    /// `schedule_next` between these two states of the context manager.
    Schedule { context_before: ContextState, context_after: ContextState, next: Option<ProcessId> },
    /// `block_current_process`.
    Block,
    /// `unblock_process` of this pid.
    Unblock { pid: ProcessId },
    /// `set_priority` of this pid.
    SetPriority { pid: ProcessId, priority: ProcessPriority },
    /// `update_cpu_time` of this pid by this much.
    UpdateCpuTime { pid: ProcessId, time_delta: u64 },
}

/// `after` is the service that `op` makes of `before`, as the contract of
/// the operation states it.
pub open spec fn step(before: ServiceState, op: ServiceOp, after: ServiceState) -> bool {
    match op {
        ServiceOp::Create { name, priority, stack_size, heap_size } => create_outcome(
            before,
            after,
            name,
            priority,
            stack_size,
            heap_size,
        ),
        ServiceOp::Terminate { pid, exit_code } => after == terminate_outcome(
            before,
            pid,
            exit_code,
        ).0,
        ServiceOp::Schedule { context_before, context_after, next } => schedule_outcome(
            before,
            context_before,
            after,
            context_after,
            next,
        ),
        ServiceOp::Block => after == block_current_outcome(before).0,
        ServiceOp::Unblock { pid } => after == unblock_outcome(before, pid).0,
        ServiceOp::SetPriority { pid, priority } => after == set_priority_outcome(
            before,
            pid,
            priority,
        ).0,
        ServiceOp::UpdateCpuTime { pid, time_delta } => after == (ServiceState {
            processes: with_cpu_time_added(before.processes, pid, time_delta),
            ..before
        }),
    }
}

/// A history of the service: `states[k + 1]` is what `ops[k]` makes of
/// `states[k]`.
pub open spec fn is_history(states: Seq<ServiceState>, ops: Seq<ServiceOp>) -> bool {
    &&& states.len() == ops.len() + 1
    &&& forall|k: int| 0 <= k < ops.len() ==> step(states[k], #[trigger] ops[k], states[k + 1])
}

/// `op` is a `create_process` that succeeds on `before`, and so issues the
/// pid `before.next_pid`.
pub open spec fn issues_pid(before: ServiceState, op: ServiceOp) -> bool {
    op matches ServiceOp::Create { stack_size, heap_size, .. } && create_result(
        before,
        stack_size,
        heap_size,
    ) is Ok
}

/// No operation lowers the next pid, and a successful `create_process`
/// raises it.
pub proof fn lemma_step_next_pid(before: ServiceState, op: ServiceOp, after: ServiceState)
    requires
        step(before, op, after),
    ensures
        before.next_pid <= after.next_pid,
        issues_pid(before, op) ==> before.next_pid < after.next_pid,
{
}

/// Along a history the next pid never goes down.
pub proof fn lemma_history_next_pid(
    states: Seq<ServiceState>,
    ops: Seq<ServiceOp>,
    i: int,
    j: int,
)
    requires
        is_history(states, ops),
        0 <= i <= j <= ops.len(),
    ensures
        states[i].next_pid <= states[j].next_pid,
    decreases j - i,
{
    if i < j {
        lemma_history_next_pid(states, ops, i, j - 1);
        lemma_step_next_pid(states[j - 1], ops[j - 1], states[j]);
    }
}

/// The pids that `create_process` issues are strictly increasing, so none
/// is issued twice: of two successful calls in a history, whatever happens
/// between them, the later one gets the larger pid.
pub proof fn lemma_issued_pids_increase(
    states: Seq<ServiceState>,
    ops: Seq<ServiceOp>,
    i: int,
    j: int,
)
    requires
        is_history(states, ops),
        0 <= i < j < ops.len(),
        issues_pid(states[i], ops[i]),
        issues_pid(states[j], ops[j]),
    ensures
        states[i].next_pid < states[j].next_pid,
{
    lemma_step_next_pid(states[i], ops[i], states[i + 1]);
    lemma_history_next_pid(states, ops, i + 1, j);
}

/// A pid that `create_process` issues is new: no process of the service
/// has it.
pub proof fn lemma_issued_pid_is_new(before: ServiceState, op: ServiceOp)
    requires
        before.wf(),
        issues_pid(before, op),
    ensures
        !before.processes.contains_key(before.next_pid),
{
}

/// A process that was just created is ready, and its memory footprint is
/// its stack size plus its heap size.
pub proof fn lemma_created_process(
    before: ServiceState,
    after: ServiceState,
    name: Seq<char>,
    priority: ProcessPriority,
    stack_size: usize,
    heap_size: usize,
)
    requires
        create_outcome(before, after, name, priority, stack_size, heap_size),
        create_result(before, stack_size, heap_size) is Ok,
    ensures
        ({
            let pid = create_result(before, stack_size, heap_size)->Ok_0;
            &&& after.processes.contains_key(pid)
            &&& after.processes[pid].state == ProcessState::Ready
            &&& after.processes[pid].memory_usage == stack_size + heap_size
            &&& after.processes[pid].name@ == name
            &&& after.processes[pid].priority == priority
            &&& after.processes[pid].exit_code is None
        }),
{
}

/// A successful `create_process` adds one process to the count.
pub proof fn lemma_create_counts(
    before: ServiceState,
    after: ServiceState,
    name: Seq<char>,
    priority: ProcessPriority,
    stack_size: usize,
    heap_size: usize,
)
    requires
        before.wf(),
        create_outcome(before, after, name, priority, stack_size, heap_size),
        create_result(before, stack_size, heap_size) is Ok,
    ensures
        after.processes.dom().len() == before.processes.dom().len() + 1,
{
    let pid = before.next_pid;
    assert(!before.processes.contains_key(pid));
    assert(after.processes.dom() =~= before.processes.dom().insert(pid));
}

/// Terminating an existing process marks it terminated and records the
/// exit code.
pub proof fn lemma_terminated_process(before: ServiceState, pid: ProcessId, exit_code: i32)
    requires
        before.processes.contains_key(pid),
    ensures
        terminate_outcome(before, pid, exit_code).1 is Ok,
        terminate_outcome(before, pid, exit_code).0.processes[pid].state
            == ProcessState::Terminated,
        terminate_outcome(before, pid, exit_code).0.processes[pid].exit_code == Some(exit_code),
        terminate_outcome(before, pid, exit_code).0.current_process != Some(pid),
{
}

/// Every operation keeps the invariant of the service.
pub proof fn lemma_step_keeps_wf(before: ServiceState, op: ServiceOp, after: ServiceState)
    requires
        before.wf(),
        step(before, op, after),
    ensures
        after.wf(),
{
    match op {
        ServiceOp::Create { name, priority, stack_size, heap_size } => {
            lemma_create_keeps_wf(before, after, name, priority, stack_size, heap_size);
        },
        ServiceOp::Terminate { pid, exit_code } => {
            lemma_terminate_keeps_wf(before, pid, exit_code);
        },
        ServiceOp::Schedule { context_before, context_after, next } => {
            lemma_schedule_keeps_wf(before, context_before, after, context_after, next);
        },
        ServiceOp::Block => {
            lemma_block_keeps_wf(before);
        },
        ServiceOp::Unblock { pid } => {
            lemma_unblock_keeps_wf(before, pid);
        },
        ServiceOp::SetPriority { pid, priority } => {
            lemma_set_priority_keeps_wf(before, pid, priority);
        },
        ServiceOp::UpdateCpuTime { pid, time_delta } => {
            lemma_cpu_time_keeps_wf(before, pid, time_delta);
        },
    }
}

/// Creating a process keeps the invariant of the service.
proof fn lemma_create_keeps_wf(
    before: ServiceState,
    after: ServiceState,
    name: Seq<char>,
    priority: ProcessPriority,
    stack_size: usize,
    heap_size: usize,
)
    requires
        before.wf(),
        create_outcome(before, after, name, priority, stack_size, heap_size),
    ensures
        after.wf(),
{
    if let Ok(pid) = create_result(before, stack_size, heap_size) {
        assert(!before.processes.contains_key(pid));
        assert forall|other: ProcessId| #[trigger] after.processes.contains_key(other) implies after.entry_wf(other) by {
            if other != pid {
                assert(before.processes.contains_key(other));
            }
        }
    }
}

/// Terminating a process keeps the invariant of the service.
proof fn lemma_terminate_keeps_wf(before: ServiceState, pid: ProcessId, exit_code: i32)
    requires
        before.wf(),
    ensures
        terminate_outcome(before, pid, exit_code).0.wf(),
{
    let after = terminate_outcome(before, pid, exit_code).0;
    assert forall|other: ProcessId| #[trigger] after.processes.contains_key(other) implies after.entry_wf(other) by {
        assert(before.processes.contains_key(other));
    }
}

/// Blocking the current process keeps the invariant of the service.
proof fn lemma_block_keeps_wf(before: ServiceState)
    requires
        before.wf(),
    ensures
        block_current_outcome(before).0.wf(),
{
    let after = block_current_outcome(before).0;
    assert forall|other: ProcessId| #[trigger] after.processes.contains_key(other) implies after.entry_wf(other) by {
        assert(before.processes.contains_key(other));
    }
}

/// Unblocking a process keeps the invariant of the service.
proof fn lemma_unblock_keeps_wf(before: ServiceState, pid: ProcessId)
    requires
        before.wf(),
    ensures
        unblock_outcome(before, pid).0.wf(),
{
    let after = unblock_outcome(before, pid).0;
    assert forall|other: ProcessId| #[trigger] after.processes.contains_key(other) implies after.entry_wf(other) by {
        assert(before.processes.contains_key(other));
    }
}

/// Setting a priority keeps the invariant of the service.
proof fn lemma_set_priority_keeps_wf(
    before: ServiceState,
    pid: ProcessId,
    priority: ProcessPriority,
)
    requires
        before.wf(),
    ensures
        set_priority_outcome(before, pid, priority).0.wf(),
{
    let after = set_priority_outcome(before, pid, priority).0;
    assert forall|other: ProcessId| #[trigger] after.processes.contains_key(other) implies after.entry_wf(other) by {
        assert(before.processes.contains_key(other));
    }
}

/// Counting CPU time keeps the invariant of the service.
proof fn lemma_cpu_time_keeps_wf(before: ServiceState, pid: ProcessId, time_delta: u64)
    requires
        before.wf(),
    ensures
        (ServiceState {
            processes: with_cpu_time_added(before.processes, pid, time_delta),
            ..before
        }).wf(),
{
    let after = ServiceState {
        processes: with_cpu_time_added(before.processes, pid, time_delta),
        ..before
    };
    assert forall|other: ProcessId| #[trigger] after.processes.contains_key(other) implies after.entry_wf(other) by {
        assert(before.processes.contains_key(other));
    }
}

/// Scheduling keeps the invariant of the service.
proof fn lemma_schedule_keeps_wf(
    before: ServiceState,
    context_before: ContextState,
    after: ServiceState,
    context_after: ContextState,
    next: Option<ProcessId>,
)
    requires
        before.wf(),
        schedule_outcome(before, context_before, after, context_after, next),
    ensures
        after.wf(),
{
    if let Some(pid) = next {
        lemma_schedule_table(before, context_before, after, context_after, pid);
        assert forall|other: ProcessId| #[trigger] after.processes.contains_key(other) implies after.entry_wf(other) by {
            assert(before.processes.contains_key(other));
        }
    }
}

/// The table after a process was scheduled: the states are those of the
/// table in which the process that was current is ready again and the
/// picked process runs; only registers differ.
proof fn lemma_schedule_table(
    before: ServiceState,
    context_before: ContextState,
    after: ServiceState,
    context_after: ContextState,
    pid: ProcessId,
)
    requires
        before.wf(),
        schedule_outcome(before, context_before, after, context_after, Some(pid)),
    ensures
        is_ready(preempted(before.processes, before.current_process), pid),
        after.processes.dom() == before.processes.dom(),
        forall|other: ProcessId| #[trigger]
            before.processes.contains_key(other) ==> {
                &&& after.processes[other].state == with_process_state(
                    preempted(before.processes, before.current_process),
                    pid,
                    ProcessState::Running,
                )[other].state
                &&& after.processes[other] == (ProcessControlBlock {
                    state: after.processes[other].state,
                    registers: after.processes[other].registers,
                    ..before.processes[other]
                })
            },
{
    let ready_again = preempted(before.processes, before.current_process);
    let marked = with_process_state(ready_again, pid, ProcessState::Running);
    let switched = switch_outcome(context_before, marked, before.current_process, pid);
    assert(is_ready(ready_again, pid));
    assert(ready_again.dom() =~= before.processes.dom());
    assert(marked.dom() =~= before.processes.dom());
    match before.current_process {
        Some(current) => {
            assert(marked.contains_key(current));
            assert(switched.1 == saved(marked, current, context_before.registers));
        },
        None => {
            assert(switched.1 == marked);
        },
    }
    assert(after.processes.dom() =~= before.processes.dom());
}

/// The processes of a service share no memory: any two of them, the
/// kernel's own process included, have stacks and heaps that are apart,
/// whatever their sizes.
pub proof fn lemma_processes_apart(state: ServiceState, p: ProcessId, q: ProcessId)
    requires
        state.wf(),
        state.processes.contains_key(p),
        state.processes.contains_key(q),
        p != q,
    ensures
        memory_apart(state.processes[p], state.processes[q]),
{
    assert(state.entry_wf(p));
    assert(state.entry_wf(q));
    if p != KERNEL_PID && q != KERNEL_PID {
        if p < q {
            assert(placed_after(state.processes[p], state.processes[q]));
        } else {
            assert(placed_after(state.processes[q], state.processes[p]));
        }
    }
}

/// `create_process` succeeds whenever a pid is left and the memory between
/// the heaps and the stacks can hold the new stack and heap.
pub proof fn lemma_create_succeeds(before: ServiceState, stack_size: usize, heap_size: usize)
    requires
        before.next_pid < u64::MAX,
        stack_size + heap_size <= usize::MAX,
        stack_size + heap_size <= before.stack_floor - before.heap_ceiling,
    ensures
        create_result(before, stack_size, heap_size) == Ok::<ProcessId, ProcessError>(
            before.next_pid,
        ),
{
}

/// Only the current process runs: a process that is running is the
/// current one, so no two processes are running.
pub proof fn lemma_only_current_runs(state: ServiceState, p: ProcessId, q: ProcessId)
    requires
        state.wf(),
        state.processes.contains_key(p),
        state.processes.contains_key(q),
        state.processes[p].state == ProcessState::Running,
        state.processes[q].state == ProcessState::Running,
    ensures
        p == q,
        state.current_process == Some(p),
{
}

/// Scheduling preempts: when a process is picked while another is
/// current, the one that was current is ready afterwards, the picked one
/// is another process, it runs and it is current.
pub proof fn lemma_schedule_preempts(
    before: ServiceState,
    context_before: ContextState,
    after: ServiceState,
    context_after: ContextState,
    pid: ProcessId,
)
    requires
        before.wf(),
        schedule_outcome(before, context_before, after, context_after, Some(pid)),
    ensures
        after.current_process == Some(pid),
        context_after.current_process == Some(pid),
        after.processes[pid].state == ProcessState::Running,
        before.current_process matches Some(current) ==> current != pid
            && after.processes[current].state == ProcessState::Ready
            && after.processes[current].registers == context_before.registers,
        context_after.registers == before.processes[pid].registers,
{
    lemma_schedule_table(before, context_before, after, context_after, pid);
    let ready_again = preempted(before.processes, before.current_process);
    let marked = with_process_state(ready_again, pid, ProcessState::Running);
    if let Some(current) = before.current_process {
        let other = choose|other: ProcessId| is_ready(before.processes, other);
        assert(is_ready(ready_again, other));
        assert(other != current);
        assert(is_ready(ready_again, current));
        crate::process::scheduler::lemma_round_robin_moves_on(ready_again, current, other, pid);
        assert(marked.contains_key(current));
    }
}

/// Terminated is final: no operation brings a terminated process back.
pub proof fn lemma_step_keeps_terminated(
    before: ServiceState,
    op: ServiceOp,
    after: ServiceState,
    pid: ProcessId,
)
    requires
        before.wf(),
        step(before, op, after),
        before.processes.contains_key(pid),
        before.processes[pid].state == ProcessState::Terminated,
    ensures
        after.processes.contains_key(pid),
        after.processes[pid].state == ProcessState::Terminated,
{
    match op {
        ServiceOp::Schedule { context_before, context_after, next } => {
            if let Some(next_pid) = next {
                lemma_schedule_table(before, context_before, after, context_after, next_pid);
            }
        },
        _ => {},
    }
}

/// The invariant holds all along a history that starts with it.
pub proof fn lemma_history_keeps_wf(states: Seq<ServiceState>, ops: Seq<ServiceOp>, k: int)
    requires
        is_history(states, ops),
        states[0].wf(),
        0 <= k <= ops.len(),
    ensures
        states[k].wf(),
    decreases k,
{
    if k > 0 {
        lemma_history_keeps_wf(states, ops, k - 1);
        lemma_step_keeps_wf(states[k - 1], ops[k - 1], states[k]);
    }
}

/// Once a process is terminated it stays terminated along every history.
pub proof fn lemma_history_keeps_terminated(
    states: Seq<ServiceState>,
    ops: Seq<ServiceOp>,
    i: int,
    j: int,
    pid: ProcessId,
)
    requires
        is_history(states, ops),
        states[0].wf(),
        0 <= i <= j <= ops.len(),
        states[i].processes.contains_key(pid),
        states[i].processes[pid].state == ProcessState::Terminated,
    ensures
        states[j].processes.contains_key(pid),
        states[j].processes[pid].state == ProcessState::Terminated,
    decreases j - i,
{
    if i < j {
        lemma_history_keeps_terminated(states, ops, i, j - 1, pid);
        lemma_history_keeps_wf(states, ops, j - 1);
        lemma_step_keeps_terminated(states[j - 1], ops[j - 1], states[j], pid);
    }
}

/// A terminated process is out of the scheduler's consideration for good:
/// no later `schedule_next` picks it.
pub proof fn lemma_terminated_is_never_scheduled(
    states: Seq<ServiceState>,
    ops: Seq<ServiceOp>,
    i: int,
    j: int,
    pid: ProcessId,
)
    requires
        is_history(states, ops),
        states[0].wf(),
        0 <= i <= j < ops.len(),
        states[i].processes.contains_key(pid),
        states[i].processes[pid].state == ProcessState::Terminated,
    ensures
        ops[j] matches ServiceOp::Schedule { next, .. } ==> next != Some(pid),
{
    lemma_history_keeps_terminated(states, ops, i, j, pid);
    lemma_history_keeps_wf(states, ops, j);
    assert(step(states[j], ops[j], states[j + 1]));
    match ops[j] {
        ServiceOp::Schedule { context_before, context_after, next } => {
            if let Some(next_pid) = next {
                lemma_schedule_table(
                    states[j],
                    context_before,
                    states[j + 1],
                    context_after,
                    next_pid,
                );
            }
        },
        _ => {},
    }
}

} // verus!
