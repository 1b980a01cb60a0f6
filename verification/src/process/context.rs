//! Context switching: moving the CPU's registers between the live register
//! set and the snapshots kept in process control blocks.

use crate::process::pcb::{
    CpuRegisters, ProcessControlBlock, ProcessError, ProcessId, ProcessMap,
};
use std::collections::BTreeMap;
use vstd::prelude::*;

verus! {

/// Base address of the kernel stack.
pub const KERNEL_STACK_BASE: u64 = 0xFFFF_8000_0000_0000;

/// What the context manager stands for: the process whose context is
/// loaded, the kernel stack and the live register set.
pub struct ContextState {
    pub current_process: Option<ProcessId>,
    pub kernel_stack: u64,
    pub registers: CpuRegisters,
}

/// Context switching manager.  It alone changes the live register set.
pub struct ContextManager {
    current_process: Option<ProcessId>,
    kernel_stack: u64,
    registers: CpuRegisters,
}

impl View for ContextManager {
    type V = ContextState;

    closed spec fn view(&self) -> ContextState {
        ContextState {
            current_process: self.current_process,
            kernel_stack: self.kernel_stack,
            registers: self.registers,
        }
    }
}

/// The process table after `registers` were saved into the control block of
/// `pid`.
pub open spec fn saved(processes: ProcessMap, pid: ProcessId, registers: CpuRegisters) -> ProcessMap {
    processes.insert(pid, ProcessControlBlock { registers, ..processes[pid] })
}

/// The context after the snapshot of `pid` was restored: its registers are
/// live and it is current.
pub open spec fn restored(context: ContextState, processes: ProcessMap, pid: ProcessId) -> ContextState {
    ContextState {
        current_process: Some(pid),
        registers: processes[pid].registers,
        ..context
    }
}

/// Outcome of saving the live registers into `pid`: nothing changes and the
/// call fails when `pid` is unknown.
pub open spec fn save_outcome(context: ContextState, processes: ProcessMap, pid: ProcessId) -> (
    ProcessMap,
    Result<(), ProcessError>,
) {
    if processes.contains_key(pid) {
        (saved(processes, pid, context.registers), Ok(()))
    } else {
        (processes, Err(ProcessError::ProcessNotFound))
    }
}

/// Outcome of restoring the snapshot of `pid`: nothing changes and the call
/// fails when `pid` is unknown.
pub open spec fn restore_outcome(context: ContextState, processes: ProcessMap, pid: ProcessId) -> (
    ContextState,
    Result<(), ProcessError>,
) {
    if processes.contains_key(pid) {
        (restored(context, processes, pid), Ok(()))
    } else {
        (context, Err(ProcessError::ProcessNotFound))
    }
}

/// Outcome of a switch from `from` to `to`: save `from`, if there is one,
/// then restore `to`.  If the save fails nothing changes; if the restore
/// fails the save stands and the context is unchanged.
pub open spec fn switch_outcome(
    context: ContextState,
    processes: ProcessMap,
    from: Option<ProcessId>,
    to: ProcessId,
) -> (ContextState, ProcessMap, Result<(), ProcessError>) {
    let (after_save, save_result) = match from {
        Some(pid) => save_outcome(context, processes, pid),
        None => (processes, Ok(())),
    };
    if save_result is Err {
        (context, processes, save_result)
    } else {
        let (after_restore, restore_result) = restore_outcome(context, after_save, to);
        (after_restore, after_save, restore_result)
    }
}

impl ContextManager {
    /// A context manager with no current process and the reset register
    /// set live.
    pub fn new() -> (manager: Self)
        ensures
            manager@ == (ContextState {
                current_process: None,
                kernel_stack: KERNEL_STACK_BASE,
                registers: CpuRegisters::reset(),
            }),
    {
        ContextManager {
            current_process: None,
            kernel_stack: KERNEL_STACK_BASE,
            registers: CpuRegisters::default(),
        }
    }

    /// Saves the live registers into the control block of `pid`.
    pub fn save_context(
        &mut self,
        pid: ProcessId,
        processes: &mut BTreeMap<ProcessId, ProcessControlBlock>,
    ) -> (result: Result<(), ProcessError>)
        ensures
            final(self)@ == old(self)@,
            (final(processes)@, result) == save_outcome(old(self)@, old(processes)@, pid),
    {
        match processes.remove(&pid) {
            Some(mut pcb) => {
                pcb.registers = self.get_current_registers();
                processes.insert(pid, pcb);
                Ok(())
            },
            None => {
                Err(ProcessError::ProcessNotFound)
            },
        }
    }

    /// Makes the saved registers of `pid` live and `pid` current.
    pub fn restore_context(
        &mut self,
        pid: ProcessId,
        processes: &mut BTreeMap<ProcessId, ProcessControlBlock>,
    ) -> (result: Result<(), ProcessError>)
        ensures
            final(processes)@ == old(processes)@,
            (final(self)@, result) == restore_outcome(old(self)@, old(processes)@, pid),
    {
        match processes.get(&pid) {
            Some(pcb) => {
                let registers = pcb.registers;
                self.set_registers(&registers);
                self.current_process = Some(pid);
                Ok(())
            },
            None => Err(ProcessError::ProcessNotFound),
        }
    }

    /// Performs a complete context switch: saves the live registers into
    /// `from_pid`, if there is one, then restores `to_pid`.
    pub fn context_switch(
        &mut self,
        from_pid: Option<ProcessId>,
        to_pid: ProcessId,
        processes: &mut BTreeMap<ProcessId, ProcessControlBlock>,
    ) -> (result: Result<(), ProcessError>)
        ensures
            (final(self)@, final(processes)@, result) == switch_outcome(
                old(self)@,
                old(processes)@,
                from_pid,
                to_pid,
            ),
    {
        if let Some(pid) = from_pid {
            match self.save_context(pid, processes) {
                Ok(()) => {},
                Err(e) => {
                    return Err(e);
                },
            }
        }
        self.restore_context(to_pid, processes)
    }

    /// The live register set.
    pub fn get_current_registers(&self) -> (registers: CpuRegisters)
        ensures
            registers == self@.registers,
    {
        self.registers
    }

    /// Loads `registers` into the live register set.
    pub fn set_registers(&mut self, registers: &CpuRegisters)
        ensures
            final(self)@ == (ContextState { registers: *registers, ..old(self)@ }),
    {
        self.registers = *registers;
    }

    /// The process whose context is loaded.
    pub fn get_current_process(&self) -> (current: Option<ProcessId>)
        ensures
            current == self@.current_process,
    {
        self.current_process
    }

    /// Records which process has its context loaded.
    pub fn set_current_process(&mut self, pid: Option<ProcessId>)
        ensures
            final(self)@ == (ContextState { current_process: pid, ..old(self)@ }),
    {
        self.current_process = pid;
    }
}

/// Saves the live registers of `manager` into `pid`; see
/// `ContextManager::save_context`.
pub fn save_context(
    manager: &mut ContextManager,
    pid: ProcessId,
    processes: &mut BTreeMap<ProcessId, ProcessControlBlock>,
) -> (result: Result<(), ProcessError>)
    ensures
        final(manager)@ == old(manager)@,
        (final(processes)@, result) == save_outcome(old(manager)@, old(processes)@, pid),
{
    manager.save_context(pid, processes)
}

/// Restores the snapshot of `pid` into `manager`; see
/// `ContextManager::restore_context`.
pub fn restore_context(
    manager: &mut ContextManager,
    pid: ProcessId,
    processes: &mut BTreeMap<ProcessId, ProcessControlBlock>,
) -> (result: Result<(), ProcessError>)
    ensures
        final(processes)@ == old(processes)@,
        (final(manager)@, result) == restore_outcome(old(manager)@, old(processes)@, pid),
{
    manager.restore_context(pid, processes)
}

/// Switches `manager` from `from_pid` to `to_pid`; see
/// `ContextManager::context_switch`.
pub fn context_switch(
    manager: &mut ContextManager,
    from_pid: Option<ProcessId>,
    to_pid: ProcessId,
    processes: &mut BTreeMap<ProcessId, ProcessControlBlock>,
) -> (result: Result<(), ProcessError>)
    ensures
        (final(manager)@, final(processes)@, result) == switch_outcome(
            old(manager)@,
            old(processes)@,
            from_pid,
            to_pid,
        ),
{
    manager.context_switch(from_pid, to_pid, processes)
}

/// The process whose context is loaded in `manager`.
pub fn get_current_process(manager: &ContextManager) -> (current: Option<ProcessId>)
    ensures
        current == manager@.current_process,
{
    manager.get_current_process()
}

/// Saving and restoring is a round trip: when the live registers are saved
/// into an existing process and that process is restored later, the live
/// registers are what they were when they were saved, whatever the CPU held
/// in between, as long as the snapshot of the process was not replaced.
pub proof fn lemma_save_restore_round_trip(
    context: ContextState,
    processes: ProcessMap,
    pid: ProcessId,
    later: ContextState,
)
    requires
        processes.contains_key(pid),
    ensures
        save_outcome(context, processes, pid).1 is Ok,
        save_outcome(context, processes, pid).0[pid].registers == context.registers,
        restore_outcome(later, save_outcome(context, processes, pid).0, pid).1 is Ok,
        restore_outcome(later, save_outcome(context, processes, pid).0, pid).0.registers
            == context.registers,
        restore_outcome(later, save_outcome(context, processes, pid).0, pid).0.current_process
            == Some(pid),
{
}

/// Two switches in a row: after a switch to `first` and, with whatever
/// registers are live by then, a switch from `first` to `second`, the
/// control block of `first` holds the registers that were live just before
/// the second switch, and `second` is current.
pub proof fn lemma_switch_saves_outgoing(
    context: ContextState,
    processes: ProcessMap,
    first: ProcessId,
    second: ProcessId,
    live: CpuRegisters,
)
    requires
        processes.contains_key(first),
        processes.contains_key(second),
    ensures
        ({
            let (context1, processes1, result1) = switch_outcome(context, processes, None, first);
            let running = ContextState { registers: live, ..context1 };
            let (context2, processes2, result2) = switch_outcome(
                running,
                processes1,
                Some(first),
                second,
            );
            &&& result1 is Ok
            &&& context1.current_process == Some(first)
            &&& context1.registers == processes[first].registers
            &&& processes1 == processes
            &&& result2 is Ok
            &&& processes2[first].registers == live
            &&& context2.current_process == Some(second)
            &&& context2.registers == processes2[second].registers
            &&& first != second ==> context2.registers == processes[second].registers
        }),
{
}

/// A switch fails without harm: when the process to switch from is
/// unknown nothing changes at all, and when only the one to switch to is
/// unknown the outgoing registers are saved and the context is unchanged.
pub proof fn lemma_failed_switch(
    context: ContextState,
    processes: ProcessMap,
    from: Option<ProcessId>,
    to: ProcessId,
)
    requires
        switch_outcome(context, processes, from, to).2 is Err,
    ensures
        switch_outcome(context, processes, from, to).2 == Err::<(), ProcessError>(
            ProcessError::ProcessNotFound,
        ),
        switch_outcome(context, processes, from, to).0 == context,
        match from {
            Some(pid) => if processes.contains_key(pid) {
                switch_outcome(context, processes, from, to).1 == saved(
                    processes,
                    pid,
                    context.registers,
                )
            } else {
                switch_outcome(context, processes, from, to).1 == processes
            },
            None => switch_outcome(context, processes, from, to).1 == processes,
        },
{
}

} // verus!
