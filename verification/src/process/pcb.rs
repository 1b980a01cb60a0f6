//! Process control blocks and the registry that owns them.

use crate::addr::{lemma_low_half_canonical, virt_addr};
use crate::ordered::{enumerates, keys_in_order};
use crate::queue::{lemma_without_contains, remove_all, without};
use std::collections::BTreeMap;
use vstd::prelude::*;

verus! {

/// Process identifier.  Identifiers are issued from 1 upwards and never
/// reused; 0 belongs to the kernel's own process.
pub type ProcessId = u64;

/// Lifecycle state of a process.
#[derive(Debug, Clone, Copy, PartialEq, Eq, Structural)]
pub enum ProcessState {
    /// Currently executing.
    Running,
    /// Ready to run, waiting for the CPU.
    Ready,
    /// Waiting for I/O or an event.
    Blocked,
    /// Finished; the control block is kept until it is reaped.
    Terminated,
    /// Finished, control block not yet cleaned up.
    Zombie,
}

/// Scheduling priority, lowest first.
#[derive(Debug, Clone, Copy, PartialEq, Eq, Structural, PartialOrd, Ord)]
pub enum ProcessPriority {
    Low,
    Normal,
    High,
    Critical,
}

impl ProcessPriority {
    /// Numeric level of a priority: `Low` is 0, `Critical` is 3.
    pub open spec fn level(self) -> u8 {
        match self {
            ProcessPriority::Low => 0,
            ProcessPriority::Normal => 1,
            ProcessPriority::High => 2,
            ProcessPriority::Critical => 3,
        }
    }

    /// Numeric level of a priority, for comparisons.
    pub fn rank(self) -> (r: u8)
        ensures
            r == self.level(),
    {
        match self {
            ProcessPriority::Low => 0,
            ProcessPriority::Normal => 1,
            ProcessPriority::High => 2,
            ProcessPriority::Critical => 3,
        }
    }

    /// Priority for a numeric code: 0 to 3 name `Low` to `Critical`, any
    /// other code names `Normal`.
    pub open spec fn decode(code: u64) -> ProcessPriority {
        if code == 0 {
            ProcessPriority::Low
        } else if code == 2 {
            ProcessPriority::High
        } else if code == 3 {
            ProcessPriority::Critical
        } else {
            ProcessPriority::Normal
        }
    }

    /// Priority for a numeric code, `Normal` when the code is out of range.
    pub fn from_code(code: u64) -> (p: ProcessPriority)
        ensures
            p == Self::decode(code),
            code <= 3 ==> p.level() == code,
    {
        match code {
            0 => ProcessPriority::Low,
            1 => ProcessPriority::Normal,
            2 => ProcessPriority::High,
            3 => ProcessPriority::Critical,
            _ => ProcessPriority::Normal,
        }
    }
}

/// Value of the flags register with only the interrupt-enable bit (and the
/// always-set reserved bit) on.
pub const RFLAGS_INTERRUPTS_ENABLED: u64 = 0x202;

/// Kernel code segment selector.
pub const KERNEL_CODE_SELECTOR: u64 = 0x08;

/// Kernel data segment selector, used for the stack and data segments.
pub const KERNEL_DATA_SELECTOR: u64 = 0x10;

/// Register snapshot: everything that is saved and restored when the CPU
/// moves from one process to another.
#[derive(Debug, Clone, Copy, PartialEq, Eq, Structural)]
pub struct CpuRegisters {
    pub rax: u64,
    pub rbx: u64,
    pub rcx: u64,
    pub rdx: u64,
    pub rsi: u64,
    pub rdi: u64,
    pub rbp: u64,
    pub rsp: u64,
    pub r8: u64,
    pub r9: u64,
    pub r10: u64,
    pub r11: u64,
    pub r12: u64,
    pub r13: u64,
    pub r14: u64,
    pub r15: u64,
    /// Instruction pointer.
    pub rip: u64,
    /// CPU flags.
    pub rflags: u64,
    /// Code segment.
    pub cs: u64,
    /// Stack segment.
    pub ss: u64,
    /// Data segment.
    pub ds: u64,
    /// Extra segment.
    pub es: u64,
    pub fs: u64,
    pub gs: u64,
}

impl CpuRegisters {
    /// The reset snapshot: all general-purpose registers and the instruction
    /// pointer zero, interrupts enabled, kernel segment selectors.
    pub open spec fn reset() -> CpuRegisters {
        CpuRegisters {
            rax: 0,
            rbx: 0,
            rcx: 0,
            rdx: 0,
            rsi: 0,
            rdi: 0,
            rbp: 0,
            rsp: 0,
            r8: 0,
            r9: 0,
            r10: 0,
            r11: 0,
            r12: 0,
            r13: 0,
            r14: 0,
            r15: 0,
            rip: 0,
            rflags: RFLAGS_INTERRUPTS_ENABLED,
            cs: KERNEL_CODE_SELECTOR,
            ss: KERNEL_DATA_SELECTOR,
            ds: KERNEL_DATA_SELECTOR,
            es: KERNEL_DATA_SELECTOR,
            fs: KERNEL_DATA_SELECTOR,
            gs: KERNEL_DATA_SELECTOR,
        }
    }
}

impl Default for CpuRegisters {
    fn default() -> (regs: Self)
        ensures
            regs == CpuRegisters::reset(),
    {
        CpuRegisters {
            rax: 0,
            rbx: 0,
            rcx: 0,
            rdx: 0,
            rsi: 0,
            rdi: 0,
            rbp: 0,
            rsp: 0,
            r8: 0,
            r9: 0,
            r10: 0,
            r11: 0,
            r12: 0,
            r13: 0,
            r14: 0,
            r15: 0,
            rip: 0,
            rflags: RFLAGS_INTERRUPTS_ENABLED,
            cs: KERNEL_CODE_SELECTOR,
            ss: KERNEL_DATA_SELECTOR,
            ds: KERNEL_DATA_SELECTOR,
            es: KERNEL_DATA_SELECTOR,
            fs: KERNEL_DATA_SELECTOR,
            gs: KERNEL_DATA_SELECTOR,
        }
    }
}

/// Kind of resource a capability refers to.
#[derive(Debug, Clone, Copy, PartialEq, Eq, Structural)]
pub enum ResourceType {
    File,
    Device,
    Memory,
    Network,
    System,
}

/// What the holder of a capability may do with the resource.
#[derive(Debug, Clone, Copy, PartialEq, Eq, Structural)]
pub struct CapabilityPermissions {
    pub read: bool,
    pub write: bool,
    pub execute: bool,
    pub admin: bool,
}

/// Capability held by a process.
#[derive(Debug, Clone)]
pub struct Capability {
    pub resource_type: ResourceType,
    pub resource_id: u64,
    pub permissions: CapabilityPermissions,
}

/// Process control block: identity, scheduling attributes, resources,
/// register snapshot and accounting of one process.
///
/// `stack_pointer` and `heap_start` are canonical virtual addresses.
#[derive(Debug)]
pub struct ProcessControlBlock {
    pub pid: ProcessId,
    pub parent_pid: Option<ProcessId>,
    pub name: String,
    pub state: ProcessState,
    pub priority: ProcessPriority,
    pub registers: CpuRegisters,
    pub stack_pointer: u64,
    pub stack_size: usize,
    pub heap_start: u64,
    pub heap_size: usize,
    /// Address of the page table, once the memory manager has set one up.
    pub page_table: Option<u64>,
    pub capabilities: Vec<Capability>,
    /// Open file descriptors.
    pub open_files: Vec<u64>,
    pub working_directory: String,
    pub exit_code: Option<i32>,
    pub creation_time: u64,
    pub cpu_time: u64,
    pub memory_usage: usize,
}

/// Errors of the process registry, the scheduler and the context manager.
#[derive(Debug, Clone, Copy, PartialEq, Eq, Structural)]
pub enum ProcessError {
    ProcessNotFound,
    ProcessAlreadyExists,
    NoCurrentProcess,
    ProcessNotBlocked,
    InsufficientMemory,
    InvalidProcessId,
    PermissionDenied,
}

/// The mathematical model of a process table: control blocks by pid.
pub type ProcessMap = Map<ProcessId, ProcessControlBlock>;

/// `pid` names a process of `processes` that is ready to run.
pub open spec fn is_ready(processes: ProcessMap, pid: ProcessId) -> bool {
    processes.contains_key(pid) && processes[pid].state == ProcessState::Ready
}

/// `pcb` is the control block of a process that was just created: ready,
/// with the reset register snapshot, no resources besides its stack and
/// heap, the root as working directory and no accounting yet.
pub open spec fn is_new_pcb(
    pcb: ProcessControlBlock,
    pid: ProcessId,
    parent_pid: Option<ProcessId>,
    name: Seq<char>,
    priority: ProcessPriority,
    stack_pointer: u64,
    stack_size: usize,
    heap_start: u64,
    heap_size: usize,
) -> bool {
    &&& pcb.pid == pid
    &&& pcb.parent_pid == parent_pid
    &&& pcb.name@ == name
    &&& pcb.state == ProcessState::Ready
    &&& pcb.priority == priority
    &&& pcb.registers == CpuRegisters::reset()
    &&& pcb.stack_pointer == stack_pointer
    &&& pcb.stack_size == stack_size
    &&& pcb.heap_start == heap_start
    &&& pcb.heap_size == heap_size
    &&& pcb.page_table is None
    &&& pcb.capabilities@.len() == 0
    &&& pcb.open_files@.len() == 0
    &&& pcb.working_directory@ == seq!['/']
    &&& pcb.exit_code is None
    &&& pcb.creation_time == 0
    &&& pcb.cpu_time == 0
    &&& pcb.memory_usage == stack_size + heap_size
}

/// Upper end of the memory for processes: stacks are placed downwards
/// from here.
pub const USER_STACK_TOP: u64 = 0x7FFF_FFFF_F000;

/// Lower end of the memory for processes: heaps are placed upwards from
/// here.
pub const USER_HEAP_BASE: u64 = 0x1000_0000;

/// A process with these sizes can be placed in the memory that is left
/// between `heap_ceiling`, where the heaps end, and `stack_floor`, where
/// the stacks begin: the sizes add up within the range of sizes, and the
/// new heap, above the heaps, stays below the new stack, below the stacks.
pub open spec fn placement_fits(
    stack_floor: u64,
    heap_ceiling: u64,
    stack_size: usize,
    heap_size: usize,
) -> bool {
    &&& stack_size + heap_size <= usize::MAX
    &&& heap_ceiling + heap_size + stack_size <= stack_floor
}

/// The memory from `a_start`, `a_size` bytes of it, and the memory from
/// `b_start`, `b_size` bytes of it, have no byte in common.
pub open spec fn ranges_apart(a_start: int, a_size: int, b_start: int, b_size: int) -> bool {
    a_start + a_size <= b_start || b_start + b_size <= a_start
}

/// Two processes share no memory: their stacks are apart, their heaps are
/// apart, and the stack of each is apart from the heap of the other.  The
/// stack of a process is the `stack_size` bytes from `stack_pointer`
/// upwards, its heap the `heap_size` bytes from `heap_start` upwards.
pub open spec fn memory_apart(a: ProcessControlBlock, b: ProcessControlBlock) -> bool {
    &&& ranges_apart(
        a.stack_pointer as int,
        a.stack_size as int,
        b.stack_pointer as int,
        b.stack_size as int,
    )
    &&& ranges_apart(
        a.heap_start as int,
        a.heap_size as int,
        b.heap_start as int,
        b.heap_size as int,
    )
    &&& ranges_apart(
        a.stack_pointer as int,
        a.stack_size as int,
        b.heap_start as int,
        b.heap_size as int,
    )
    &&& ranges_apart(
        a.heap_start as int,
        a.heap_size as int,
        b.stack_pointer as int,
        b.stack_size as int,
    )
}

/// The memory of the process lies where processes are placed: its heap
/// between `heap_base` and `heap_ceiling`, its stack between `stack_floor`
/// and the top.
pub open spec fn is_within(
    pcb: ProcessControlBlock,
    heap_base: u64,
    heap_ceiling: u64,
    stack_floor: u64,
) -> bool {
    &&& heap_base <= pcb.heap_start
    &&& pcb.heap_start + pcb.heap_size <= heap_ceiling
    &&& stack_floor <= pcb.stack_pointer
    &&& pcb.stack_pointer + pcb.stack_size <= USER_STACK_TOP
}

/// `later` was placed after `earlier`: its stack lies below and its heap
/// above.
pub open spec fn placed_after(earlier: ProcessControlBlock, later: ProcessControlBlock) -> bool {
    &&& later.stack_pointer + later.stack_size <= earlier.stack_pointer
    &&& earlier.heap_start + earlier.heap_size <= later.heap_start
}

/// Places a process in the memory that is left: its stack just below
/// `stack_floor`, its heap at `heap_ceiling`.  Returns the addresses of
/// the stack and of the heap, or `None` when the process does not fit.
pub fn place_process(
    stack_floor: u64,
    heap_ceiling: u64,
    stack_size: usize,
    heap_size: usize,
) -> (placed: Option<(u64, u64)>)
    requires
        heap_ceiling <= stack_floor <= USER_STACK_TOP,
    ensures
        placed is Some <==> placement_fits(stack_floor, heap_ceiling, stack_size, heap_size),
        placed matches Some(addresses) ==> addresses.0 == stack_floor - stack_size && addresses.1
            == heap_ceiling,
{
    let total = match stack_size.checked_add(heap_size) {
        Some(total) => total,
        None => {
            return None;
        },
    };
    if total as u64 > stack_floor - heap_ceiling {
        return None;
    }
    let stack_address = stack_floor - stack_size as u64;
    proof {
        lemma_low_half_canonical(stack_address);
        lemma_low_half_canonical(heap_ceiling);
    }
    match virt_addr(stack_address) {
        Some(stack_pointer) => match virt_addr(heap_ceiling) {
            Some(heap_start) => Some((stack_pointer, heap_start)),
            None => None,
        },
        None => None,
    }
}

/// What a process registry stands for.
pub struct RegistryState {
    /// The control blocks, by pid.
    pub processes: ProcessMap,
    /// The process that is running, if any.
    pub current_process: Option<ProcessId>,
    /// The pid that the next process will get.
    pub next_pid: ProcessId,
    /// Pids waiting for the CPU, next to run first.
    pub ready_queue: Seq<ProcessId>,
    /// Pids that were blocked.
    pub blocked_queue: Seq<ProcessId>,
    /// Where the stacks begin: the next stack is placed just below.
    pub stack_floor: u64,
    /// Where the heaps end: the next heap is placed here.
    pub heap_ceiling: u64,
}

impl RegistryState {
    /// What the invariant says of the control block of `pid`.
    pub open spec fn entry_wf(self, pid: ProcessId) -> bool {
        &&& 1 <= pid < self.next_pid
        &&& self.processes[pid].pid == pid
        &&& is_within(self.processes[pid], USER_HEAP_BASE, self.heap_ceiling, self.stack_floor)
        &&& (self.processes[pid].exit_code is Some <==> self.processes[pid].state
            == ProcessState::Terminated)
        &&& (self.processes[pid].state == ProcessState::Running ==> self.current_process
            == Some(pid))
    }

    /// The invariant of a registry.
    ///
    /// There are finitely many control blocks.  Each is filed under its own
    /// pid, which is at least 1 and below the next pid to be issued.  The
    /// heaps lie below the heap ceiling and the stacks above the stack
    /// floor, the ceiling is not above the floor, and a process with a
    /// larger pid was placed after one with a smaller pid.  A process has
    /// an exit code exactly when it is terminated.  The current process
    /// exists, and it is the one process that is running.  The queues hold
    /// only processes that exist and are not terminated.
    pub open spec fn wf(self) -> bool {
        &&& self.next_pid >= 1
        &&& self.processes.dom().finite()
        &&& USER_HEAP_BASE <= self.heap_ceiling <= self.stack_floor <= USER_STACK_TOP
        &&& forall|pid: ProcessId| #[trigger] self.processes.contains_key(pid) ==> self.entry_wf(pid)
        &&& forall|p: ProcessId, q: ProcessId|
            #[trigger] self.processes.contains_key(p) && #[trigger] self.processes.contains_key(q)
                && p < q ==> placed_after(self.processes[p], self.processes[q])
        &&& self.current_process matches Some(pid) ==> {
            &&& self.processes.contains_key(pid)
            &&& self.processes[pid].state == ProcessState::Running
        }
        &&& forall|i: int|
            0 <= i < self.ready_queue.len() ==> is_live(self.processes, #[trigger] self.ready_queue[i])
        &&& forall|i: int|
            0 <= i < self.blocked_queue.len() ==> is_live(
                self.processes,
                #[trigger] self.blocked_queue[i],
            )
    }
}

/// `pid` names a process of `processes` that is not terminated.
pub open spec fn is_live(processes: ProcessMap, pid: ProcessId) -> bool {
    processes.contains_key(pid) && processes[pid].state != ProcessState::Terminated
}

/// The control block of `pid` after the process was terminated with
/// `exit_code`.
pub open spec fn terminated_pcb(pcb: ProcessControlBlock, exit_code: i32) -> ProcessControlBlock {
    ProcessControlBlock { state: ProcessState::Terminated, exit_code: Some(exit_code), ..pcb }
}

/// A control block in another state.
pub open spec fn with_state(pcb: ProcessControlBlock, state: ProcessState) -> ProcessControlBlock {
    ProcessControlBlock { state, ..pcb }
}

/// `after` is `before` with one process added under `pid`, a new control
/// block as `is_new_pcb` describes it; nothing else is changed.
pub open spec fn process_added(
    before: ProcessMap,
    after: ProcessMap,
    pid: ProcessId,
    parent_pid: Option<ProcessId>,
    name: Seq<char>,
    priority: ProcessPriority,
    stack_pointer: u64,
    stack_size: usize,
    heap_start: u64,
    heap_size: usize,
) -> bool {
    &&& !before.contains_key(pid)
    &&& after == before.insert(pid, after[pid])
    &&& is_new_pcb(
        after[pid],
        pid,
        parent_pid,
        name,
        priority,
        stack_pointer,
        stack_size,
        heap_start,
        heap_size,
    )
}

/// Process registry: owns the control blocks, issues pids and keeps the
/// ready and blocked queues.
pub struct ProcessManager {
    next_pid: ProcessId,
    processes: BTreeMap<ProcessId, ProcessControlBlock>,
    current_process: Option<ProcessId>,
    ready_queue: Vec<ProcessId>,
    blocked_queue: Vec<ProcessId>,
    stack_floor: u64,
    heap_ceiling: u64,
}

impl View for ProcessManager {
    type V = RegistryState;

    closed spec fn view(&self) -> RegistryState {
        RegistryState {
            processes: self.processes@,
            current_process: self.current_process,
            next_pid: self.next_pid,
            ready_queue: self.ready_queue@,
            blocked_queue: self.blocked_queue@,
            stack_floor: self.stack_floor,
            heap_ceiling: self.heap_ceiling,
        }
    }
}

/// Entries of a process listing: pid, name and state of each process.
pub open spec fn lists_processes(
    listing: Seq<(ProcessId, String, ProcessState)>,
    processes: ProcessMap,
) -> bool {
    &&& enumerates(listing.map_values(|entry: (ProcessId, String, ProcessState)| entry.0), processes.dom())
    &&& forall|i: int|
        0 <= i < listing.len() ==> {
            &&& (#[trigger] listing[i]).1@ == processes[listing[i].0].name@
            &&& listing[i].2 == processes[listing[i].0].state
        }
}

/// The processes of a table as (pid, name, state), in pid order.
pub fn list_table(processes: &BTreeMap<ProcessId, ProcessControlBlock>) -> (listing: Vec<
    (ProcessId, String, ProcessState),
>)
    ensures
        lists_processes(listing@, processes@),
{
    let pids = keys_in_order(processes);
    let mut listing: Vec<(ProcessId, String, ProcessState)> = Vec::new();
    let mut i: usize = 0;
    while i < pids.len()
        invariant
            0 <= i <= pids.len(),
            enumerates(pids@, processes@.dom()),
            listing@.len() == i,
            forall|k: int|
                0 <= k < i ==> {
                    &&& (#[trigger] listing@[k]).0 == pids@[k]
                    &&& listing@[k].1@ == processes@[pids@[k]].name@
                    &&& listing@[k].2 == processes@[pids@[k]].state
                },
        decreases pids.len() - i,
    {
        let pid = pids[i];
        assert(pids@.contains(pid));
        match processes.get(&pid) {
            Some(pcb) => {
                listing.push((pid, pcb.name.clone(), pcb.state));
            },
            None => {
                assert(false);
            },
        }
        i = i + 1;
    }
    assert(listing@.map_values(|entry: (ProcessId, String, ProcessState)| entry.0) =~= pids@);
    listing
}

impl ProcessManager {
    /// The invariant of the registry; see `RegistryState::wf`.
    pub open spec fn wf(&self) -> bool {
        self@.wf()
    }

    /// An empty registry.  The first process will get pid 1, and all the
    /// memory for processes is free.
    pub fn new() -> (manager: Self)
        ensures
            manager.wf(),
            manager@ == (RegistryState {
                processes: Map::empty(),
                current_process: None,
                next_pid: 1,
                ready_queue: Seq::empty(),
                blocked_queue: Seq::empty(),
                stack_floor: USER_STACK_TOP,
                heap_ceiling: USER_HEAP_BASE,
            }),
    {
        ProcessManager {
            next_pid: 1,
            processes: BTreeMap::new(),
            current_process: None,
            ready_queue: Vec::new(),
            blocked_queue: Vec::new(),
            stack_floor: USER_STACK_TOP,
            heap_ceiling: USER_HEAP_BASE,
        }
    }

    /// Creates a process and queues it as ready.
    ///
    /// The process gets the next unused pid, the current process as parent,
    /// a stack just below the stacks there are and a heap just above the
    /// heaps there are, and a new control block.  The call fails, and
    /// changes nothing, only when the pids are used up (`InvalidProcessId`)
    /// or when the memory that is left cannot hold the stack and the heap
    /// (`InsufficientMemory`).
    pub fn create_process(
        &mut self,
        name: String,
        priority: ProcessPriority,
        stack_size: usize,
        heap_size: usize,
    ) -> (result: Result<ProcessId, ProcessError>)
        requires
            old(self).wf(),
        ensures
            final(self).wf(),
            result == create_result(old(self)@, stack_size, heap_size),
            create_outcome(old(self)@, final(self)@, name@, priority, stack_size, heap_size),
    {
        if self.next_pid == u64::MAX {
            return Err(ProcessError::InvalidProcessId);
        }
        let pid = self.next_pid;
        let (stack_pointer, heap_start) = match place_process(
            self.stack_floor,
            self.heap_ceiling,
            stack_size,
            heap_size,
        ) {
            Some(addresses) => addresses,
            None => {
                return Err(ProcessError::InsufficientMemory);
            },
        };
        let memory_usage = stack_size + heap_size;
        self.next_pid = pid + 1;
        self.stack_floor = stack_pointer;
        self.heap_ceiling = heap_start + heap_size as u64;
        let working_directory = "/".to_owned();
        proof {
            reveal_strlit("/");
            assert(working_directory@ =~= seq!['/']);
        }
        let pcb = ProcessControlBlock {
            pid,
            parent_pid: self.current_process,
            name,
            state: ProcessState::Ready,
            priority,
            registers: CpuRegisters::default(),
            stack_pointer,
            stack_size,
            heap_start,
            heap_size,
            page_table: None,
            capabilities: Vec::new(),
            open_files: Vec::new(),
            working_directory,
            exit_code: None,
            creation_time: 0,
            cpu_time: 0,
            memory_usage,
        };
        self.processes.insert(pid, pcb);
        self.ready_queue.push(pid);
        proof {
            assert(self@.processes == old(self)@.processes.insert(pid, pcb));
            lemma_step_keeps_wf(
                old(self)@,
                RegistryOp::Create { name: name@, priority, stack_size, heap_size },
                self@,
            );
        }
        Ok(pid)
    }

    /// Terminates a process: records the exit code, takes the process out
    /// of the queues, and clears the current process if it was the one.
    /// The control block stays in the registry.  Terminating a terminated
    /// process again replaces its exit code.
    pub fn terminate_process(&mut self, pid: ProcessId, exit_code: i32) -> (result: Result<
        (),
        ProcessError,
    >)
        requires
            old(self).wf(),
        ensures
            final(self).wf(),
            final(self)@ == terminate_outcome(old(self)@, pid, exit_code).0,
            result == terminate_outcome(old(self)@, pid, exit_code).1,
    {
        match self.processes.remove(&pid) {
            Some(mut pcb) => {
                pcb.state = ProcessState::Terminated;
                pcb.exit_code = Some(exit_code);
                self.processes.insert(pid, pcb);
                remove_all(&mut self.ready_queue, pid);
                remove_all(&mut self.blocked_queue, pid);
                if self.current_process == Some(pid) {
                    self.current_process = None;
                }
                proof {
                    assert(self@.processes == old(self)@.processes.insert(
                        pid,
                        terminated_pcb(old(self)@.processes[pid], exit_code),
                    ));
                    lemma_step_keeps_wf(
                        old(self)@,
                        RegistryOp::Terminate { pid, exit_code },
                        self@,
                    );
                }
                Ok(())
            },
            None => {
                assert(self@.processes == old(self)@.processes);
                Err(ProcessError::ProcessNotFound)
            },
        }
    }

    /// Round robin over the ready queue: hands out the pid at the head of
    /// the queue and moves it to the end.
    pub fn get_next_process(&mut self) -> (next: Option<ProcessId>)
        requires
            old(self).wf(),
        ensures
            final(self).wf(),
            final(self)@ == next_process_outcome(old(self)@).0,
            next == next_process_outcome(old(self)@).1,
    {
        if self.ready_queue.len() == 0 {
            return None;
        }
        let pid = self.ready_queue.remove(0);
        self.ready_queue.push(pid);
        proof {
            assert(old(self)@.ready_queue.remove(0) =~= old(self)@.ready_queue.drop_first());
            lemma_step_keeps_wf(old(self)@, RegistryOp::Next, self@);
        }
        Some(pid)
    }

    /// Marks a process as running and makes it the current process; the
    /// process that was current is ready again.  This is bookkeeping only:
    /// no registers are moved.  A terminated process stays terminated, and
    /// counts as not found.
    pub fn switch_to_process(&mut self, pid: ProcessId) -> (result: Result<(), ProcessError>)
        requires
            old(self).wf(),
        ensures
            final(self).wf(),
            final(self)@ == switch_to_outcome(old(self)@, pid).0,
            result == switch_to_outcome(old(self)@, pid).1,
    {
        let live = match self.processes.get(&pid) {
            Some(pcb) => pcb.state != ProcessState::Terminated,
            None => false,
        };
        if !live {
            return Err(ProcessError::ProcessNotFound);
        }
        if let Some(previous) = self.current_process {
            set_process_state(&mut self.processes, previous, ProcessState::Ready);
        }
        set_process_state(&mut self.processes, pid, ProcessState::Running);
        self.current_process = Some(pid);
        proof {
            lemma_step_keeps_wf(old(self)@, RegistryOp::SwitchTo { pid }, self@);
        }
        Ok(())
    }

    /// Blocks the current process: it leaves the CPU, is marked blocked and
    /// joins the blocked queue.
    pub fn block_current_process(&mut self) -> (result: Result<(), ProcessError>)
        requires
            old(self).wf(),
        ensures
            final(self).wf(),
            final(self)@ == block_current_outcome(old(self)@).0,
            result == block_current_outcome(old(self)@).1,
    {
        match self.current_process {
            Some(pid) => {
                set_process_state(&mut self.processes, pid, ProcessState::Blocked);
                self.blocked_queue.push(pid);
                self.current_process = None;
                proof {
                    lemma_step_keeps_wf(old(self)@, RegistryOp::Block, self@);
                }
                Ok(())
            },
            None => Err(ProcessError::NoCurrentProcess),
        }
    }

    /// Makes a blocked process ready again and moves it from the blocked
    /// queue to the end of the ready queue.  A process in any other state
    /// is left as it is.
    pub fn unblock_process(&mut self, pid: ProcessId) -> (result: Result<(), ProcessError>)
        requires
            old(self).wf(),
        ensures
            final(self).wf(),
            final(self)@ == unblock_outcome(old(self)@, pid).0,
            result == unblock_outcome(old(self)@, pid).1,
    {
        match self.processes.get(&pid) {
            Some(pcb) => {
                if pcb.state == ProcessState::Blocked {
                    set_process_state(&mut self.processes, pid, ProcessState::Ready);
                    remove_all(&mut self.blocked_queue, pid);
                    self.ready_queue.push(pid);
                    proof {
                        lemma_step_keeps_wf(old(self)@, RegistryOp::Unblock { pid }, self@);
                    }
                    Ok(())
                } else {
                    Err(ProcessError::ProcessNotBlocked)
                }
            },
            None => Err(ProcessError::ProcessNotFound),
        }
    }

    /// The control block of a process.
    pub fn get_process(&self, pid: ProcessId) -> (pcb: Option<&ProcessControlBlock>)
        ensures
            match pcb {
                Some(pcb) => self@.processes.contains_key(pid) && *pcb == self@.processes[pid],
                None => !self@.processes.contains_key(pid),
            },
    {
        self.processes.get(&pid)
    }

    /// The pid of the current process.
    pub fn get_current_process(&self) -> (current: Option<ProcessId>)
        ensures
            current == self@.current_process,
    {
        self.current_process
    }

    /// Pid, name and state of every process, in pid order.
    pub fn list_processes(&self) -> (listing: Vec<(ProcessId, String, ProcessState)>)
        ensures
            lists_processes(listing@, self@.processes),
    {
        list_table(&self.processes)
    }

    /// Number of processes in the registry, terminated ones included.
    pub fn get_process_count(&self) -> (count: usize)
        ensures
            count == self@.processes.dom().len(),
    {
        self.processes.len()
    }

    /// Adds `time_delta` to the CPU time of a process.  An unknown pid is
    /// ignored.
    pub fn update_cpu_time(&mut self, pid: ProcessId, time_delta: u64)
        requires
            old(self).wf(),
            old(self)@.processes.contains_key(pid) ==> old(self)@.processes[pid].cpu_time
                + time_delta <= u64::MAX,
        ensures
            final(self).wf(),
            final(self)@ == (RegistryState {
                processes: with_cpu_time_added(old(self)@.processes, pid, time_delta),
                ..old(self)@
            }),
    {
        match self.processes.remove(&pid) {
            Some(mut pcb) => {
                pcb.cpu_time = pcb.cpu_time + time_delta;
                self.processes.insert(pid, pcb);
                assert(self@.processes == with_cpu_time_added(
                    old(self)@.processes,
                    pid,
                    time_delta,
                ));
            },
            None => {
                assert(self@.processes == old(self)@.processes);
            },
        }
        proof {
            lemma_step_keeps_wf(old(self)@, RegistryOp::UpdateCpuTime { pid, time_delta }, self@);
        }
    }
}

/// The process table with `pid` in another state; the same table when
/// `pid` is unknown.
pub open spec fn with_process_state(
    processes: ProcessMap,
    pid: ProcessId,
    state: ProcessState,
) -> ProcessMap {
    if processes.contains_key(pid) {
        processes.insert(pid, with_state(processes[pid], state))
    } else {
        processes
    }
}

/// The process table after the current process, if there is one, has left
/// the CPU and is ready again.
pub open spec fn preempted(processes: ProcessMap, current: Option<ProcessId>) -> ProcessMap {
    match current {
        Some(pid) => with_process_state(processes, pid, ProcessState::Ready),
        None => processes,
    }
}

/// Puts a process of the table in another state.  An unknown pid is
/// ignored.
pub fn set_process_state(
    processes: &mut BTreeMap<ProcessId, ProcessControlBlock>,
    pid: ProcessId,
    state: ProcessState,
)
    ensures
        final(processes)@ == with_process_state(old(processes)@, pid, state),
{
    match processes.remove(&pid) {
        Some(mut pcb) => {
            pcb.state = state;
            processes.insert(pid, pcb);
        },
        None => {
            assert(processes@ == old(processes)@);
        },
    }
}

/// The process table after `time_delta` was added to the CPU time of
/// `pid`; the same table when `pid` is unknown.
pub open spec fn with_cpu_time_added(
    processes: ProcessMap,
    pid: ProcessId,
    time_delta: u64,
) -> ProcessMap {
    if processes.contains_key(pid) {
        processes.insert(
            pid,
            ProcessControlBlock {
                cpu_time: (processes[pid].cpu_time + time_delta) as u64,
                ..processes[pid]
            },
        )
    } else {
        processes
    }
}

/// What a call of `create_process` returns: the pid that was next, or
/// `InvalidProcessId` when no pid is left, or else `InsufficientMemory`
/// when the memory that is left cannot hold the stack and the heap.
pub open spec fn create_result(
    before: RegistryState,
    stack_size: usize,
    heap_size: usize,
) -> Result<ProcessId, ProcessError> {
    if before.next_pid == u64::MAX {
        Err(ProcessError::InvalidProcessId)
    } else if !placement_fits(before.stack_floor, before.heap_ceiling, stack_size, heap_size) {
        Err(ProcessError::InsufficientMemory)
    } else {
        Ok(before.next_pid)
    }
}

/// What `create_process` does to a registry.
///
/// On success the process has the pid that was next and a new control
/// block with the current process as parent; its stack lies just below
/// the stack floor and its heap at the heap ceiling, which move
/// accordingly; and the process stands at the end of the ready queue.  A
/// failed call changes nothing.
pub open spec fn create_outcome(
    before: RegistryState,
    after: RegistryState,
    name: Seq<char>,
    priority: ProcessPriority,
    stack_size: usize,
    heap_size: usize,
) -> bool {
    match create_result(before, stack_size, heap_size) {
        Ok(pid) => {
            &&& process_added(
                before.processes,
                after.processes,
                pid,
                before.current_process,
                name,
                priority,
                (before.stack_floor - stack_size) as u64,
                stack_size,
                before.heap_ceiling,
                heap_size,
            )
            &&& after == (RegistryState {
                processes: after.processes,
                next_pid: (pid + 1) as u64,
                ready_queue: before.ready_queue.push(pid),
                stack_floor: (before.stack_floor - stack_size) as u64,
                heap_ceiling: (before.heap_ceiling + heap_size) as u64,
                ..before
            })
        },
        Err(_) => after == before,
    }
}

/// Outcome of asking for the next process: the head of the ready queue
/// moves to its end and is handed out; an empty queue gives nothing.
pub open spec fn next_process_outcome(before: RegistryState) -> (RegistryState, Option<ProcessId>) {
    if before.ready_queue.len() == 0 {
        (before, None)
    } else {
        (
            RegistryState {
                ready_queue: before.ready_queue.drop_first().push(before.ready_queue[0]),
                ..before
            },
            Some(before.ready_queue[0]),
        )
    }
}

/// Outcome of switching to `pid`: a process that exists and is not
/// terminated becomes the running, current one, and the process that was
/// current is ready again.
pub open spec fn switch_to_outcome(before: RegistryState, pid: ProcessId) -> (
    RegistryState,
    Result<(), ProcessError>,
) {
    if is_live(before.processes, pid) {
        (
            RegistryState {
                processes: with_process_state(
                    preempted(before.processes, before.current_process),
                    pid,
                    ProcessState::Running,
                ),
                current_process: Some(pid),
                ..before
            },
            Ok(()),
        )
    } else {
        (before, Err(ProcessError::ProcessNotFound))
    }
}

/// Outcome of blocking the current process.
pub open spec fn block_current_outcome(before: RegistryState) -> (
    RegistryState,
    Result<(), ProcessError>,
) {
    match before.current_process {
        Some(pid) => (
            RegistryState {
                processes: before.processes.insert(
                    pid,
                    with_state(before.processes[pid], ProcessState::Blocked),
                ),
                current_process: None,
                blocked_queue: before.blocked_queue.push(pid),
                ..before
            },
            Ok(()),
        ),
        None => (before, Err(ProcessError::NoCurrentProcess)),
    }
}

/// Outcome of terminating `pid` with `exit_code`: the registry afterwards
/// and the result of the call.
pub open spec fn terminate_outcome(
    before: RegistryState,
    pid: ProcessId,
    exit_code: i32,
) -> (RegistryState, Result<(), ProcessError>) {
    if before.processes.contains_key(pid) {
        (
            RegistryState {
                processes: before.processes.insert(
                    pid,
                    terminated_pcb(before.processes[pid], exit_code),
                ),
                current_process: if before.current_process == Some(pid) {
                    None
                } else {
                    before.current_process
                },
                ready_queue: without(before.ready_queue, pid),
                blocked_queue: without(before.blocked_queue, pid),
                ..before
            },
            Ok(()),
        )
    } else {
        (before, Err(ProcessError::ProcessNotFound))
    }
}

/// Outcome of unblocking `pid`: only a blocked process changes.
pub open spec fn unblock_outcome(before: RegistryState, pid: ProcessId) -> (
    RegistryState,
    Result<(), ProcessError>,
) {
    if !before.processes.contains_key(pid) {
        (before, Err(ProcessError::ProcessNotFound))
    } else if before.processes[pid].state != ProcessState::Blocked {
        (before, Err(ProcessError::ProcessNotBlocked))
    } else {
        (
            RegistryState {
                processes: before.processes.insert(
                    pid,
                    with_state(before.processes[pid], ProcessState::Ready),
                ),
                ready_queue: before.ready_queue.push(pid),
                blocked_queue: without(before.blocked_queue, pid),
                ..before
            },
            Ok(()),
        )
    }
}

/// Creates a process in `manager`; see `ProcessManager::create_process`.
pub fn create_process(
    manager: &mut ProcessManager,
    name: String,
    priority: ProcessPriority,
    stack_size: usize,
    heap_size: usize,
) -> (result: Result<ProcessId, ProcessError>)
    requires
        old(manager).wf(),
    ensures
        final(manager).wf(),
        result == create_result(old(manager)@, stack_size, heap_size),
        create_outcome(old(manager)@, final(manager)@, name@, priority, stack_size, heap_size),
{
    manager.create_process(name, priority, stack_size, heap_size)
}

/// Terminates a process of `manager`; see
/// `ProcessManager::terminate_process`.
pub fn terminate_process(manager: &mut ProcessManager, pid: ProcessId, exit_code: i32) -> (result:
    Result<(), ProcessError>)
    requires
        old(manager).wf(),
    ensures
        final(manager).wf(),
        final(manager)@ == terminate_outcome(old(manager)@, pid, exit_code).0,
        result == terminate_outcome(old(manager)@, pid, exit_code).1,
{
    manager.terminate_process(pid, exit_code)
}

/// Hands out the head of the ready queue of `manager` and moves it to the
/// end; see `ProcessManager::get_next_process`.
pub fn get_next_process(manager: &mut ProcessManager) -> (next: Option<ProcessId>)
    requires
        old(manager).wf(),
    ensures
        final(manager).wf(),
        final(manager)@ == next_process_outcome(old(manager)@).0,
        next == next_process_outcome(old(manager)@).1,
{
    manager.get_next_process()
}

/// Makes a process of `manager` the running one; see
/// `ProcessManager::switch_to_process`.
pub fn switch_to_process(manager: &mut ProcessManager, pid: ProcessId) -> (result: Result<
    (),
    ProcessError,
>)
    requires
        old(manager).wf(),
    ensures
        final(manager).wf(),
        final(manager)@ == switch_to_outcome(old(manager)@, pid).0,
        result == switch_to_outcome(old(manager)@, pid).1,
{
    manager.switch_to_process(pid)
}

/// Blocks the current process of `manager`; see
/// `ProcessManager::block_current_process`.
pub fn block_current_process(manager: &mut ProcessManager) -> (result: Result<(), ProcessError>)
    requires
        old(manager).wf(),
    ensures
        final(manager).wf(),
        final(manager)@ == block_current_outcome(old(manager)@).0,
        result == block_current_outcome(old(manager)@).1,
{
    manager.block_current_process()
}

/// Makes a blocked process of `manager` ready again; see
/// `ProcessManager::unblock_process`.
pub fn unblock_process(manager: &mut ProcessManager, pid: ProcessId) -> (result: Result<
    (),
    ProcessError,
>)
    requires
        old(manager).wf(),
    ensures
        final(manager).wf(),
        final(manager)@ == unblock_outcome(old(manager)@, pid).0,
        result == unblock_outcome(old(manager)@, pid).1,
{
    manager.unblock_process(pid)
}

/// The pid of the current process of `manager`.
pub fn get_current_process(manager: &ProcessManager) -> (current: Option<ProcessId>)
    ensures
        current == manager@.current_process,
{
    manager.get_current_process()
}

/// Pid, name and state of every process of `manager`, in pid order.
pub fn list_processes(manager: &ProcessManager) -> (listing: Vec<
    (ProcessId, String, ProcessState),
>)
    ensures
        lists_processes(listing@, manager@.processes),
{
    manager.list_processes()
}

/// One operation of the registry, with its arguments.
pub enum RegistryOp {
    /// `create_process` with this name, priority, stack size and heap size.
    Create { name: Seq<char>, priority: ProcessPriority, stack_size: usize, heap_size: usize },
    /// `terminate_process` of this pid with this exit code.
    Terminate { pid: ProcessId, exit_code: i32 },
    /// `get_next_process`.
    Next,
    /// `switch_to_process` to this pid.
    SwitchTo { pid: ProcessId },
    /// `block_current_process`.
    Block,
    /// `unblock_process` of this pid.
    Unblock { pid: ProcessId },
    /// `update_cpu_time` of this pid by this much.
    UpdateCpuTime { pid: ProcessId, time_delta: u64 },
}

/// `after` is the registry that `op` makes of `before`, as the contract of
/// the operation states it.
pub open spec fn step(before: RegistryState, op: RegistryOp, after: RegistryState) -> bool {
    match op {
        RegistryOp::Create { name, priority, stack_size, heap_size } => create_outcome(
            before,
            after,
            name,
            priority,
            stack_size,
            heap_size,
        ),
        RegistryOp::Terminate { pid, exit_code } => after == terminate_outcome(
            before,
            pid,
            exit_code,
        ).0,
        RegistryOp::Next => after == next_process_outcome(before).0,
        RegistryOp::SwitchTo { pid } => after == switch_to_outcome(before, pid).0,
        RegistryOp::Block => after == block_current_outcome(before).0,
        RegistryOp::Unblock { pid } => after == unblock_outcome(before, pid).0,
        RegistryOp::UpdateCpuTime { pid, time_delta } => after == (RegistryState {
            processes: with_cpu_time_added(before.processes, pid, time_delta),
            ..before
        }),
    }
}

/// A history of the registry: `states[k + 1]` is what `ops[k]` makes of
/// `states[k]`.
pub open spec fn is_history(states: Seq<RegistryState>, ops: Seq<RegistryOp>) -> bool {
    &&& states.len() == ops.len() + 1
    &&& forall|k: int| 0 <= k < ops.len() ==> step(states[k], #[trigger] ops[k], states[k + 1])
}

/// `op` is a `create_process` that succeeds on `before`, and so issues the
/// pid `before.next_pid`.
pub open spec fn issues_pid(before: RegistryState, op: RegistryOp) -> bool {
    op matches RegistryOp::Create { stack_size, heap_size, .. } && create_result(
        before,
        stack_size,
        heap_size,
    ) is Ok
}

/// No operation lowers the next pid, and a successful `create_process`
/// raises it.
pub proof fn lemma_step_next_pid(before: RegistryState, op: RegistryOp, after: RegistryState)
    requires
        step(before, op, after),
    ensures
        before.next_pid <= after.next_pid,
        issues_pid(before, op) ==> before.next_pid < after.next_pid,
{
}

/// Along a history the next pid never goes down.
pub proof fn lemma_history_next_pid(
    states: Seq<RegistryState>,
    ops: Seq<RegistryOp>,
    i: int,
    j: int,
)
    requires
        is_history(states, ops),
        0 <= i <= j <= ops.len(),
    ensures
        states[i].next_pid <= states[j].next_pid,
    decreases j - i,
{
    if i < j {
        lemma_history_next_pid(states, ops, i, j - 1);
        lemma_step_next_pid(states[j - 1], ops[j - 1], states[j]);
    }
}

/// The pids that `create_process` issues are strictly increasing, so none
/// is issued twice: of two successful calls in a history, whatever happens
/// between them, the later one gets the larger pid.
pub proof fn lemma_issued_pids_increase(
    states: Seq<RegistryState>,
    ops: Seq<RegistryOp>,
    i: int,
    j: int,
)
    requires
        is_history(states, ops),
        0 <= i < j < ops.len(),
        issues_pid(states[i], ops[i]),
        issues_pid(states[j], ops[j]),
    ensures
        states[i].next_pid < states[j].next_pid,
{
    lemma_step_next_pid(states[i], ops[i], states[i + 1]);
    lemma_history_next_pid(states, ops, i + 1, j);
}

/// A process that was just created is ready, last in the ready queue, and
/// its memory footprint is its stack size plus its heap size.
pub proof fn lemma_created_process(
    before: RegistryState,
    after: RegistryState,
    name: Seq<char>,
    priority: ProcessPriority,
    stack_size: usize,
    heap_size: usize,
)
    requires
        create_outcome(before, after, name, priority, stack_size, heap_size),
        create_result(before, stack_size, heap_size) is Ok,
    ensures
        ({
            let pid = create_result(before, stack_size, heap_size)->Ok_0;
            &&& after.processes.contains_key(pid)
            &&& after.processes[pid].state == ProcessState::Ready
            &&& after.processes[pid].memory_usage == stack_size + heap_size
            &&& after.processes[pid].name@ == name
            &&& after.processes[pid].priority == priority
            &&& after.processes[pid].exit_code is None
            &&& after.ready_queue.last() == pid
        }),
{
}

/// A successful `create_process` adds one process to the count.
pub proof fn lemma_create_counts(
    before: RegistryState,
    after: RegistryState,
    name: Seq<char>,
    priority: ProcessPriority,
    stack_size: usize,
    heap_size: usize,
)
    requires
        before.wf(),
        create_outcome(before, after, name, priority, stack_size, heap_size),
        create_result(before, stack_size, heap_size) is Ok,
    ensures
        after.processes.dom().len() == before.processes.dom().len() + 1,
{
    let pid = before.next_pid;
    assert(!before.processes.contains_key(pid));
    assert(after.processes.dom() =~= before.processes.dom().insert(pid));
}

/// Terminating an existing process marks it terminated, records the exit
/// code and takes the process out of both queues.
pub proof fn lemma_terminated_process(before: RegistryState, pid: ProcessId, exit_code: i32)
    requires
        before.processes.contains_key(pid),
    ensures
        terminate_outcome(before, pid, exit_code).1 is Ok,
        terminate_outcome(before, pid, exit_code).0.processes[pid].state
            == ProcessState::Terminated,
        terminate_outcome(before, pid, exit_code).0.processes[pid].exit_code == Some(exit_code),
        terminate_outcome(before, pid, exit_code).0.current_process != Some(pid),
        !terminate_outcome(before, pid, exit_code).0.ready_queue.contains(pid),
        !terminate_outcome(before, pid, exit_code).0.blocked_queue.contains(pid),
{
    lemma_without_contains(before.ready_queue, pid, pid);
    lemma_without_contains(before.blocked_queue, pid, pid);
}

/// Taking `pid` out of a queue of live processes leaves a queue of live
/// processes, also when `pid` itself has changed meanwhile.
proof fn lemma_without_keeps_live(
    queue: Seq<ProcessId>,
    pid: ProcessId,
    before: ProcessMap,
    after: ProcessMap,
)
    requires
        forall|i: int| 0 <= i < queue.len() ==> is_live(before, #[trigger] queue[i]),
        forall|other: ProcessId| other != pid && is_live(before, other) ==> is_live(after, other),
    ensures
        forall|i: int|
            0 <= i < without(queue, pid).len() ==> is_live(after, #[trigger] without(queue, pid)[i]),
{
    let kept = without(queue, pid);
    assert forall|i: int| 0 <= i < kept.len() implies is_live(after, #[trigger] kept[i]) by {
        let entry = kept[i];
        assert(kept.contains(entry));
        lemma_without_contains(queue, pid, entry);
        let k = choose|k: int| 0 <= k < queue.len() && queue[k] == entry;
        assert(is_live(before, queue[k]));
    }
}

/// Every operation keeps the invariant of the registry.
pub proof fn lemma_step_keeps_wf(before: RegistryState, op: RegistryOp, after: RegistryState)
    requires
        before.wf(),
        step(before, op, after),
    ensures
        after.wf(),
{
    match op {
        RegistryOp::Create { name, priority, stack_size, heap_size } => {
            if create_result(before, stack_size, heap_size) is Ok {
                assert forall|i: int| 0 <= i < after.ready_queue.len() implies is_live(
                    after.processes,
                    #[trigger] after.ready_queue[i],
                ) by {
                    if i < before.ready_queue.len() {
                        assert(is_live(before.processes, before.ready_queue[i]));
                    }
                }
                assert forall|i: int| 0 <= i < after.blocked_queue.len() implies is_live(
                    after.processes,
                    #[trigger] after.blocked_queue[i],
                ) by {
                    assert(is_live(before.processes, before.blocked_queue[i]));
                }
            }
        },
        RegistryOp::Terminate { pid, exit_code } => {
            if before.processes.contains_key(pid) {
                lemma_without_keeps_live(before.ready_queue, pid, before.processes, after.processes);
                lemma_without_keeps_live(
                    before.blocked_queue,
                    pid,
                    before.processes,
                    after.processes,
                );
            }
        },
        RegistryOp::Next => {
            if before.ready_queue.len() > 0 {
                assert forall|i: int| 0 <= i < after.ready_queue.len() implies is_live(
                    after.processes,
                    #[trigger] after.ready_queue[i],
                ) by {
                    if i < before.ready_queue.len() - 1 {
                        assert(after.ready_queue[i] == before.ready_queue[i + 1]);
                        assert(is_live(before.processes, before.ready_queue[i + 1]));
                    } else {
                        assert(after.ready_queue[i] == before.ready_queue[0]);
                        assert(is_live(before.processes, before.ready_queue[0]));
                    }
                }
            }
        },
        RegistryOp::SwitchTo { pid } => {
            if is_live(before.processes, pid) {
                assert forall|i: int| 0 <= i < after.ready_queue.len() implies is_live(
                    after.processes,
                    #[trigger] after.ready_queue[i],
                ) by {
                    assert(is_live(before.processes, before.ready_queue[i]));
                }
                assert forall|i: int| 0 <= i < after.blocked_queue.len() implies is_live(
                    after.processes,
                    #[trigger] after.blocked_queue[i],
                ) by {
                    assert(is_live(before.processes, before.blocked_queue[i]));
                }
            }
        },
        RegistryOp::Block => {
            if before.current_process is Some {
                assert forall|i: int| 0 <= i < after.ready_queue.len() implies is_live(
                    after.processes,
                    #[trigger] after.ready_queue[i],
                ) by {
                    assert(is_live(before.processes, before.ready_queue[i]));
                }
                assert forall|i: int| 0 <= i < after.blocked_queue.len() implies is_live(
                    after.processes,
                    #[trigger] after.blocked_queue[i],
                ) by {
                    if i < before.blocked_queue.len() {
                        assert(is_live(before.processes, before.blocked_queue[i]));
                    }
                }
            }
        },
        RegistryOp::Unblock { pid } => {
            if before.processes.contains_key(pid) && before.processes[pid].state
                == ProcessState::Blocked {
                lemma_without_keeps_live(
                    before.blocked_queue,
                    pid,
                    before.processes,
                    after.processes,
                );
                assert forall|i: int| 0 <= i < after.ready_queue.len() implies is_live(
                    after.processes,
                    #[trigger] after.ready_queue[i],
                ) by {
                    if i < before.ready_queue.len() {
                        assert(is_live(before.processes, before.ready_queue[i]));
                    }
                }
            }
        },
        RegistryOp::UpdateCpuTime { pid, time_delta } => {
            assert forall|i: int| 0 <= i < after.ready_queue.len() implies is_live(
                after.processes,
                #[trigger] after.ready_queue[i],
            ) by {
                assert(is_live(before.processes, before.ready_queue[i]));
            }
            assert forall|i: int| 0 <= i < after.blocked_queue.len() implies is_live(
                after.processes,
                #[trigger] after.blocked_queue[i],
            ) by {
                assert(is_live(before.processes, before.blocked_queue[i]));
            }
        },
    }
}

/// The invariant holds all along a history that starts with it.
pub proof fn lemma_history_keeps_wf(states: Seq<RegistryState>, ops: Seq<RegistryOp>, k: int)
    requires
        is_history(states, ops),
        states[0].wf(),
        0 <= k <= ops.len(),
    ensures
        states[k].wf(),
    decreases k,
{
    if k > 0 {
        lemma_history_keeps_wf(states, ops, k - 1);
        lemma_step_keeps_wf(states[k - 1], ops[k - 1], states[k]);
    }
}

/// The processes of a registry share no memory: any two of them have
/// stacks and heaps that are apart, whatever their sizes.
pub proof fn lemma_processes_apart(state: RegistryState, p: ProcessId, q: ProcessId)
    requires
        state.wf(),
        state.processes.contains_key(p),
        state.processes.contains_key(q),
        p != q,
    ensures
        memory_apart(state.processes[p], state.processes[q]),
{
    assert(state.entry_wf(p));
    assert(state.entry_wf(q));
    if p < q {
        assert(placed_after(state.processes[p], state.processes[q]));
    } else {
        assert(placed_after(state.processes[q], state.processes[p]));
    }
}

/// `create_process` succeeds whenever a pid is left and the memory between
/// the heaps and the stacks can hold the new stack and heap; in a new
/// registry that memory is all there is.
pub proof fn lemma_create_succeeds(before: RegistryState, stack_size: usize, heap_size: usize)
    requires
        before.next_pid < u64::MAX,
        stack_size + heap_size <= usize::MAX,
        stack_size + heap_size <= before.stack_floor - before.heap_ceiling,
    ensures
        create_result(before, stack_size, heap_size) == Ok::<ProcessId, ProcessError>(
            before.next_pid,
        ),
{
}

/// Terminated is final: no operation brings a terminated process back.
pub proof fn lemma_step_keeps_terminated(
    before: RegistryState,
    op: RegistryOp,
    after: RegistryState,
    pid: ProcessId,
)
    requires
        before.wf(),
        step(before, op, after),
        before.processes.contains_key(pid),
        before.processes[pid].state == ProcessState::Terminated,
    ensures
        after.processes.contains_key(pid),
        after.processes[pid].state == ProcessState::Terminated,
{
}

/// Once a process is terminated it stays terminated along every history.
pub proof fn lemma_history_keeps_terminated(
    states: Seq<RegistryState>,
    ops: Seq<RegistryOp>,
    i: int,
    j: int,
    pid: ProcessId,
)
    requires
        is_history(states, ops),
        states[0].wf(),
        0 <= i <= j <= ops.len(),
        states[i].processes.contains_key(pid),
        states[i].processes[pid].state == ProcessState::Terminated,
    ensures
        states[j].processes.contains_key(pid),
        states[j].processes[pid].state == ProcessState::Terminated,
    decreases j - i,
{
    if i < j {
        lemma_history_keeps_terminated(states, ops, i, j - 1, pid);
        lemma_history_keeps_wf(states, ops, j - 1);
        lemma_step_keeps_terminated(states[j - 1], ops[j - 1], states[j], pid);
    }
}

/// A terminated process is out of the ready queue for good: no later
/// `get_next_process` hands it out.
pub proof fn lemma_terminated_is_never_next(
    states: Seq<RegistryState>,
    ops: Seq<RegistryOp>,
    i: int,
    j: int,
    pid: ProcessId,
)
    requires
        is_history(states, ops),
        states[0].wf(),
        0 <= i <= j <= ops.len(),
        states[i].processes.contains_key(pid),
        states[i].processes[pid].state == ProcessState::Terminated,
    ensures
        !states[j].ready_queue.contains(pid),
        next_process_outcome(states[j]).1 != Some(pid),
{
    lemma_history_keeps_terminated(states, ops, i, j, pid);
    lemma_history_keeps_wf(states, ops, j);
    let queue = states[j].ready_queue;
    if queue.contains(pid) {
        let k = choose|k: int| 0 <= k < queue.len() && queue[k] == pid;
        assert(is_live(states[j].processes, queue[k]));
    }
    if queue.len() > 0 {
        assert(queue.contains(queue[0]));
    }
}

} // verus!
